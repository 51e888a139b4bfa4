//! Sprites: the graphics of a data file, with their deltas and attack sounds.
use crate::codec::{
    bytes_until_nul, i16_at, i16_bytes, i32_at, i32_bytes, lemma_add_assoc, lemma_field_lens,
    lemma_i16_field, lemma_pow256_values, lemma_u16_field, lemma_u32_field, opt_u16_at,
    opt_u16_bytes, put_i16_le, put_i32_le, put_i8, put_opt_u16, put_u16_le, put_u32_le,
    read_bytes, read_i16_le, read_i32_le, read_i8, read_opt_u16, read_u16_le, read_u32_le,
    read_u8, u16_at, u16_bytes, u32_at, u32_bytes, until_nul, ReadError,
};
use crate::dat::fields::{
    fits_i16, flag_at, flag_bytes, i8_at, i8_bytes, lemma_flag_field, lemma_i8_field,
    lemma_u8_field, opt_graphic, opt_sound, put_flag, read_flag, sound_from_opt, sound_to_opt,
};
use crate::dat::ids::{GraphicID, SoundID, SpriteID};
use crate::dat::sprite::{
    attack_sounds_bytes, held_sounds, kept_sounds, opt_sprite_view, sprite_delta_at,
    sprite_delta_bytes, stored_sounds, SpriteAttackSound, SpriteDelta,
};
use crate::lang::encoding::decode_utf8_text;
use vstd::prelude::*;
use vstd::string::StringSliceAdditionalSpecFns;
use vstd::utf8::{decode_utf8, encode_utf8, valid_utf8};

verus! {

/// The fields of a drawing part of a sprite as values.
pub ghost struct SpriteLookView {
    pub layer: u8,
    pub color_table: u16,
    pub transparent_selection: bool,
    pub bounding_box_0: i16,
    pub bounding_box_1: i16,
    pub bounding_box_2: i16,
    pub bounding_box_3: i16,
}

/// The drawing part of a sprite stored at `pos`.
pub open spec fn sprite_look_at(data: Seq<u8>, pos: int) -> SpriteLookView {
    SpriteLookView {
        layer: data[pos],
        color_table: u16_at(data, pos + 1),
        transparent_selection: flag_at(data, pos + 3),
        bounding_box_0: i16_at(data, pos + 4),
        bounding_box_1: i16_at(data, pos + 6),
        bounding_box_2: i16_at(data, pos + 8),
        bounding_box_3: i16_at(data, pos + 10),
    }
}

/// The 12 bytes the drawing part of a sprite is stored as.
pub open spec fn sprite_look_bytes(v: SpriteLookView) -> Seq<u8> {
    seq![v.layer]
        + u16_bytes(v.color_table)
        + flag_bytes(v.transparent_selection)
        + i16_bytes(v.bounding_box_0)
        + i16_bytes(v.bounding_box_1)
        + i16_bytes(v.bounding_box_2)
        + i16_bytes(v.bounding_box_3)
}

/// The values that can be written: IDs that the game writes as signed numbers fit.
pub open spec fn sprite_look_writable(v: SpriteLookView) -> bool {
    true
}

/// The values that read back as written: IDs fit, and none is `0xFFFF`.
pub open spec fn sprite_look_exact(v: SpriteLookView) -> bool {
    true
}

/// The drawing part of a sprite reads back as written, wherever it stands.
pub proof fn law_sprite_look_read_of_write(prefix: Seq<u8>, v: SpriteLookView, suffix: Seq<u8>)
    requires
        sprite_look_exact(v),
    ensures
        sprite_look_bytes(v).len() == 12,
        sprite_look_at(prefix + sprite_look_bytes(v) + suffix, prefix.len() as int) == v,
{
    lemma_field_lens();
    lemma_pow256_values();
    assert(flag_bytes(v.transparent_selection).len() == 1);
    let data = prefix + sprite_look_bytes(v) + suffix;
    let p = prefix.len() as int;
    assert(data.subrange(p, p + 1) =~= seq![v.layer]);
    lemma_u8_field(data, p, v.layer);
    assert(data.subrange(p + 1, p + 3) =~= u16_bytes(v.color_table));
    lemma_u16_field(data, p + 1, v.color_table);
    assert(data.subrange(p + 3, p + 4) =~= flag_bytes(v.transparent_selection));
    lemma_flag_field(data, p + 3, v.transparent_selection);
    assert(data.subrange(p + 4, p + 6) =~= i16_bytes(v.bounding_box_0));
    lemma_i16_field(data, p + 4, v.bounding_box_0);
    assert(data.subrange(p + 6, p + 8) =~= i16_bytes(v.bounding_box_1));
    lemma_i16_field(data, p + 6, v.bounding_box_1);
    assert(data.subrange(p + 8, p + 10) =~= i16_bytes(v.bounding_box_2));
    lemma_i16_field(data, p + 8, v.bounding_box_2);
    assert(data.subrange(p + 10, p + 12) =~= i16_bytes(v.bounding_box_3));
    lemma_i16_field(data, p + 10, v.bounding_box_3);
}

/// The fields of the drawing part of a sprite, as read.
struct SpriteLookPart {
    layer: u8,
    color_table: u16,
    transparent_selection: bool,
    bounding_box: (i16, i16, i16, i16),
}

impl View for SpriteLookPart {
    type V = SpriteLookView;

    closed spec fn view(&self) -> SpriteLookView {
        SpriteLookView {
            layer: self.layer,
            color_table: self.color_table,
            transparent_selection: self.transparent_selection,
            bounding_box_0: self.bounding_box.0,
            bounding_box_1: self.bounding_box.1,
            bounding_box_2: self.bounding_box.2,
            bounding_box_3: self.bounding_box.3,
        }
    }
}

impl SpriteLookPart {
    fn read_from(input: &[u8], pos: usize) -> (r: Result<(Self, usize), ReadError>)
        ensures
            r is Ok <==> pos + 12 <= input.len(),
            r matches Ok((x, q)) ==> x@ == sprite_look_at(input@, pos as int) && q == pos + 12,
            r matches Err(e) ==> e == ReadError::UnexpectedEof,
    {
        let p = pos;
        let (layer, p) = read_u8(input, p)?;
        let (color_table, p) = read_u16_le(input, p)?;
        let (transparent_selection, p) = read_flag(input, p)?;
        let (bounding_box_0, p) = read_i16_le(input, p)?;
        let (bounding_box_1, p) = read_i16_le(input, p)?;
        let (bounding_box_2, p) = read_i16_le(input, p)?;
        let (bounding_box_3, p) = read_i16_le(input, p)?;
        Ok((SpriteLookPart { layer, color_table, transparent_selection, bounding_box: (bounding_box_0, bounding_box_1, bounding_box_2, bounding_box_3) }, p))
    }
}

/// The fields of a animation part of a sprite as values.
pub ghost struct SpriteFramesView {
    pub num_frames: u16,
    pub num_angles: u16,
    pub base_speed: u32,
    pub frame_rate: u32,
    pub replay_delay: u32,
    pub sequence_type: u8,
    pub id: u16,
    pub mirror_flag: i8,
    pub other_flag: i8,
}

/// The animation part of a sprite stored at `pos`.
pub open spec fn sprite_frames_at(data: Seq<u8>, pos: int) -> SpriteFramesView {
    SpriteFramesView {
        num_frames: u16_at(data, pos),
        num_angles: u16_at(data, pos + 2),
        base_speed: u32_at(data, pos + 4),
        frame_rate: u32_at(data, pos + 8),
        replay_delay: u32_at(data, pos + 12),
        sequence_type: data[pos + 16],
        id: u16_at(data, pos + 17),
        mirror_flag: i8_at(data, pos + 19),
        other_flag: i8_at(data, pos + 20),
    }
}

/// Part 1 of the bytes of a animation part of a sprite.
pub open spec fn sprite_frames_bytes_1(v: SpriteFramesView) -> Seq<u8> {
    u16_bytes(v.num_frames)
        + u16_bytes(v.num_angles)
        + u32_bytes(v.base_speed)
        + u32_bytes(v.frame_rate)
        + u32_bytes(v.replay_delay)
        + seq![v.sequence_type]
        + u16_bytes(v.id)
}

/// Part 2 of the bytes of a animation part of a sprite.
pub open spec fn sprite_frames_bytes_2(v: SpriteFramesView) -> Seq<u8> {
    i8_bytes(v.mirror_flag)
        + i8_bytes(v.other_flag)
}

/// The 21 bytes the animation part of a sprite is stored as.
pub open spec fn sprite_frames_bytes(v: SpriteFramesView) -> Seq<u8> {
    sprite_frames_bytes_1(v)
        + sprite_frames_bytes_2(v)
}

/// The values that can be written: IDs that the game writes as signed numbers fit.
pub open spec fn sprite_frames_writable(v: SpriteFramesView) -> bool {
    true
}

/// The values that read back as written: IDs fit, and none is `0xFFFF`.
pub open spec fn sprite_frames_exact(v: SpriteFramesView) -> bool {
    true
}

/// The animation part of a sprite reads back as written, wherever it stands.
pub proof fn law_sprite_frames_read_of_write(prefix: Seq<u8>, v: SpriteFramesView, suffix: Seq<u8>)
    requires
        sprite_frames_exact(v),
    ensures
        sprite_frames_bytes(v).len() == 21,
        sprite_frames_at(prefix + sprite_frames_bytes(v) + suffix, prefix.len() as int) == v,
{
    lemma_field_lens();
    lemma_pow256_values();
    let data = prefix + sprite_frames_bytes(v) + suffix;
    let p = prefix.len() as int;
    assert((prefix) + sprite_frames_bytes_1(v) + (sprite_frames_bytes_2(v) + suffix) =~= data);
    lemma_sprite_frames_part_1(prefix, v, sprite_frames_bytes_2(v) + suffix);
    assert((prefix + sprite_frames_bytes_1(v)) + sprite_frames_bytes_2(v) + (suffix) =~= data);
    lemma_sprite_frames_part_2(prefix + sprite_frames_bytes_1(v), v, suffix);
}

/// The fields of part 1 of the bytes of a SpriteFramesView stand at their offsets.
pub open spec fn sprite_frames_part_1_holds(data: Seq<u8>, p: int, v: SpriteFramesView) -> bool {
    &&& u16_at(data, p) == v.num_frames
    &&& u16_at(data, p + 2) == v.num_angles
    &&& u32_at(data, p + 4) == v.base_speed
    &&& u32_at(data, p + 8) == v.frame_rate
    &&& u32_at(data, p + 12) == v.replay_delay
    &&& data[p + 16] == v.sequence_type
    &&& u16_at(data, p + 17) == v.id
}

proof fn lemma_sprite_frames_part_1(prefix: Seq<u8>, v: SpriteFramesView, suffix: Seq<u8>)
    requires
        sprite_frames_exact(v),
    ensures
        sprite_frames_bytes_1(v).len() == 19,
        sprite_frames_part_1_holds(prefix + sprite_frames_bytes_1(v) + suffix, prefix.len() as int, v),
{
    lemma_field_lens();
    lemma_pow256_values();
    let data = prefix + sprite_frames_bytes_1(v) + suffix;
    let p = prefix.len() as int;
    assert(data.subrange(p, p + 2) =~= u16_bytes(v.num_frames));
    lemma_u16_field(data, p, v.num_frames);
    assert(data.subrange(p + 2, p + 4) =~= u16_bytes(v.num_angles));
    lemma_u16_field(data, p + 2, v.num_angles);
    assert(data.subrange(p + 4, p + 8) =~= u32_bytes(v.base_speed));
    lemma_u32_field(data, p + 4, v.base_speed);
    assert(data.subrange(p + 8, p + 12) =~= u32_bytes(v.frame_rate));
    lemma_u32_field(data, p + 8, v.frame_rate);
    assert(data.subrange(p + 12, p + 16) =~= u32_bytes(v.replay_delay));
    lemma_u32_field(data, p + 12, v.replay_delay);
    assert(data.subrange(p + 16, p + 17) =~= seq![v.sequence_type]);
    lemma_u8_field(data, p + 16, v.sequence_type);
    assert(data.subrange(p + 17, p + 19) =~= u16_bytes(v.id));
    lemma_u16_field(data, p + 17, v.id);
}

/// The fields of part 2 of the bytes of a SpriteFramesView stand at their offsets.
pub open spec fn sprite_frames_part_2_holds(data: Seq<u8>, p: int, v: SpriteFramesView) -> bool {
    &&& i8_at(data, p) == v.mirror_flag
    &&& i8_at(data, p + 1) == v.other_flag
}

proof fn lemma_sprite_frames_part_2(prefix: Seq<u8>, v: SpriteFramesView, suffix: Seq<u8>)
    requires
        sprite_frames_exact(v),
    ensures
        sprite_frames_bytes_2(v).len() == 2,
        sprite_frames_part_2_holds(prefix + sprite_frames_bytes_2(v) + suffix, prefix.len() as int, v),
{
    lemma_field_lens();
    lemma_pow256_values();
    let data = prefix + sprite_frames_bytes_2(v) + suffix;
    let p = prefix.len() as int;
    assert(data.subrange(p, p + 1) =~= i8_bytes(v.mirror_flag));
    lemma_i8_field(data, p, v.mirror_flag);
    assert(data.subrange(p + 1, p + 2) =~= i8_bytes(v.other_flag));
    lemma_i8_field(data, p + 1, v.other_flag);
}

/// The fields of the animation part of a sprite, as read.
struct SpriteFramesPart {
    num_frames: u16,
    num_angles: u16,
    base_speed: u32,
    frame_rate: u32,
    replay_delay: u32,
    sequence_type: u8,
    id: SpriteID,
    mirror_flag: i8,
    other_flag: i8,
}

impl View for SpriteFramesPart {
    type V = SpriteFramesView;

    closed spec fn view(&self) -> SpriteFramesView {
        SpriteFramesView {
            num_frames: self.num_frames,
            num_angles: self.num_angles,
            base_speed: self.base_speed,
            frame_rate: self.frame_rate,
            replay_delay: self.replay_delay,
            sequence_type: self.sequence_type,
            id: self.id@,
            mirror_flag: self.mirror_flag,
            other_flag: self.other_flag,
        }
    }
}

impl SpriteFramesPart {
    fn read_from(input: &[u8], pos: usize) -> (r: Result<(Self, usize), ReadError>)
        ensures
            r is Ok <==> pos + 21 <= input.len(),
            r matches Ok((x, q)) ==> x@ == sprite_frames_at(input@, pos as int) && q == pos + 21,
            r matches Err(e) ==> e == ReadError::UnexpectedEof,
    {
        let p = pos;
        let (num_frames, p) = read_u16_le(input, p)?;
        let (num_angles, p) = read_u16_le(input, p)?;
        let (base_speed, p) = read_u32_le(input, p)?;
        let (frame_rate, p) = read_u32_le(input, p)?;
        let (replay_delay, p) = read_u32_le(input, p)?;
        let (sequence_type, p) = read_u8(input, p)?;
        let (id, p) = read_u16_le(input, p)?;
        let id = SpriteID::from(id);
        let (mirror_flag, p) = read_i8(input, p)?;
        let (other_flag, p) = read_i8(input, p)?;
        Ok((SpriteFramesPart { num_frames, num_angles, base_speed, frame_rate, replay_delay, sequence_type, id, mirror_flag, other_flag }, p))
    }
}

/// A text in a field of `len` bytes at `pos`: the bytes before the first NUL, as UTF-8.
pub open spec fn text_field_at(data: Seq<u8>, pos: int, len: int) -> Seq<char> {
    decode_utf8(until_nul(data.subrange(pos, pos + len)))
}

/// The text field of `len` bytes at `pos` is UTF-8 up to its first NUL, where the input
/// holds it (reading other bytes panics).
pub open spec fn text_field_readable(data: Seq<u8>, pos: int, len: int) -> bool {
    0 <= pos && pos + len <= data.len() ==> valid_utf8(until_nul(data.subrange(pos, pos + len)))
}

/// The bytes of a text in a field of `len` bytes: its UTF-8 bytes, then NULs.
pub open spec fn text_field_bytes(s: Seq<char>, len: nat) -> Seq<u8> {
    encode_utf8(s) + Seq::new((len - encode_utf8(s).len()) as nat, |i: int| 0u8)
}

/// Reads a text in a field of `len` bytes at `pos`.
fn read_text_field(input: &[u8], pos: usize, len: usize) -> (r: Result<(String, usize), ReadError>)
    requires
        text_field_readable(input@, pos as int, len as int),
    ensures
        r is Ok <==> pos + len <= input.len(),
        r matches Ok((s, p)) ==> s@ == text_field_at(input@, pos as int, len as int) && p == pos + len,
        r matches Err(e) ==> e == ReadError::UnexpectedEof,
{
    let (raw, p) = read_bytes(input, pos, len)?;
    let kept = bytes_until_nul(raw.as_slice());
    match decode_utf8_text(kept.as_slice()) {
        Some(text) => Ok((text.to_owned(), p)),
        None => {
            assert(false);
            Err(ReadError::InvalidData)
        },
    }
}

/// Appends a text in a field of `len` bytes, which it must fit.
fn write_text_field(output: &mut Vec<u8>, s: &str, len: usize)
    requires
        s.spec_bytes().len() <= len,
    ensures
        final(output)@ == old(output)@ + text_field_bytes(s@, len as nat),
{
    let b = s.as_bytes();
    let mut k: usize = 0;
    while k < b.len()
        invariant
            k <= b.len(),
            b@ == encode_utf8(s@),
            output@ == old(output)@ + b@.take(k as int),
        decreases b.len() - k,
    {
        output.push(b[k]);
        assert(b@.take(k + 1) =~= b@.take(k as int).push(b@[k as int]));
        k = k + 1;
    }
    assert(b@.take(b.len() as int) =~= b@);
    let ghost s1 = output@;
    while k < len
        invariant
            b.len() <= k <= len,
            output@ == s1 + Seq::new((k - b.len()) as nat, |i: int| 0u8),
        decreases len - k,
    {
        output.push(0u8);
        assert(output@ =~= s1 + Seq::new((k + 1 - b.len()) as nat, |i: int| 0u8));
        k = k + 1;
    }
}

/// A sprite: a graphic with its frames, the sprites drawn with it (deltas), and the sounds
/// played for each of its angles when attacking. Speeds, rates and delays are bit patterns
/// of `f32`s.
#[derive(Debug, Default)]
pub struct Sprite {
    pub name: String,
    pub filename: String,
    /// The SLP resource ID for this sprite.
    pub slp_id: Option<GraphicID>,
    pub is_loaded: bool,
    /// If `Some(id)`, the sprite will always be rendered with this player colour.
    force_player_color: Option<u8>,
    pub layer: u8,
    pub color_table: u16,
    pub transparent_selection: bool,
    pub bounding_box: (i16, i16, i16, i16),
    pub sound_id: Option<SoundID>,
    pub num_frames: u16,
    pub num_angles: u16,
    pub base_speed: u32,
    pub frame_rate: u32,
    pub replay_delay: u32,
    pub sequence_type: u8,
    pub id: SpriteID,
    pub mirror_flag: i8,
    other_flag: i8,
    pub deltas: Vec<SpriteDelta>,
    pub attack_sounds: Vec<SpriteAttackSound>,
}

impl Clone for Sprite {
    fn clone(&self) -> (r: Self) {
        Sprite {
            name: self.name.clone(),
            filename: self.filename.clone(),
            slp_id: self.slp_id,
            is_loaded: self.is_loaded,
            force_player_color: self.force_player_color,
            layer: self.layer,
            color_table: self.color_table,
            transparent_selection: self.transparent_selection,
            bounding_box: self.bounding_box,
            sound_id: self.sound_id,
            num_frames: self.num_frames,
            num_angles: self.num_angles,
            base_speed: self.base_speed,
            frame_rate: self.frame_rate,
            replay_delay: self.replay_delay,
            sequence_type: self.sequence_type,
            id: self.id,
            mirror_flag: self.mirror_flag,
            other_flag: self.other_flag,
            deltas: self.deltas.clone(),
            attack_sounds: self.attack_sounds.clone(),
        }
    }
}

/// The values of a list of sprite deltas.
pub open spec fn deltas_view(v: Seq<SpriteDelta>) -> Seq<(Option<u16>, i16, i16, i16)> {
    v.map_values(|d: SpriteDelta| d@)
}

/// The sounds of each entry of a list of attack sounds.
pub open spec fn attack_sounds_view(v: Seq<SpriteAttackSound>) -> Seq<Seq<(i16, u16)>> {
    v.map_values(|a: SpriteAttackSound| held_sounds(a.sound_props))
}

/// The values of a sprite.
pub ghost struct SpriteView {
    pub name: Seq<char>,
    pub filename: Seq<char>,
    pub slp_id: Option<u32>,
    pub is_loaded: bool,
    pub force_player_color: Option<u8>,
    pub look: SpriteLookView,
    pub sound_id: Option<u16>,
    pub frames: SpriteFramesView,
    pub deltas: Seq<(Option<u16>, i16, i16, i16)>,
    pub attack_sounds: Seq<Seq<(i16, u16)>>,
}

impl View for Sprite {
    type V = SpriteView;

    closed spec fn view(&self) -> SpriteView {
        SpriteView {
            name: self.name@,
            filename: self.filename@,
            slp_id: opt_graphic(self.slp_id),
            is_loaded: self.is_loaded,
            force_player_color: self.force_player_color,
            look: SpriteLookView {
                layer: self.layer,
                color_table: self.color_table,
                transparent_selection: self.transparent_selection,
                bounding_box_0: self.bounding_box.0,
                bounding_box_1: self.bounding_box.1,
                bounding_box_2: self.bounding_box.2,
                bounding_box_3: self.bounding_box.3,
            },
            sound_id: opt_sound(self.sound_id),
            frames: SpriteFramesView {
                num_frames: self.num_frames,
                num_angles: self.num_angles,
                base_speed: self.base_speed,
                frame_rate: self.frame_rate,
                replay_delay: self.replay_delay,
                sequence_type: self.sequence_type,
                id: self.id@,
                mirror_flag: self.mirror_flag,
                other_flag: self.other_flag,
            },
            deltas: deltas_view(self.deltas@),
            attack_sounds: attack_sounds_view(self.attack_sounds@),
        }
    }
}

/// The sprite stored at `pos`: its name (21 bytes) and file name (13 bytes), the SLP ID (`-1`
/// for none), whether it is loaded, the player colour (`0xFF` for none), the drawing part,
/// the number of deltas, the sound, whether attack sounds follow, the animation part, the
/// deltas, and, if attack sounds follow, those of each angle; and the position after it.
pub open spec fn sprite_at(data: Seq<u8>, pos: int) -> Option<(SpriteView, int)> {
    if pos + 78 > data.len() {
        None
    } else {
        let n = u16_at(data, pos + 52) as int;
        let used = data[pos + 56] != 0;
        let k = u16_at(data, pos + 59) as int;
        let e1 = pos + 78 + 16 * n;
        let e2 = if used {
            e1 + 12 * k
        } else {
            e1
        };
        if e2 > data.len() {
            None
        } else {
            Some(
                (
                    SpriteView {
                        name: text_field_at(data, pos, 21),
                        filename: text_field_at(data, pos + 21, 13),
                        slp_id: if i32_at(data, pos + 34) == -1 {
                            None
                        } else {
                            Some(i32_at(data, pos + 34) as u32)
                        },
                        is_loaded: data[pos + 38] != 0,
                        force_player_color: if data[pos + 39] == 0xFF {
                            None
                        } else {
                            Some(data[pos + 39])
                        },
                        look: sprite_look_at(data, pos + 40),
                        sound_id: opt_u16_at(data, pos + 54),
                        frames: sprite_frames_at(data, pos + 57),
                        deltas: Seq::new(n as nat, |i: int| sprite_delta_at(data, pos + 78 + 16 * i)),
                        attack_sounds: if used {
                            Seq::new(k as nat, |i: int| kept_sounds(stored_sounds(data, e1 + 12 * i)))
                        } else {
                            Seq::empty()
                        },
                    },
                    e2,
                ),
            )
        }
    }
}

/// The sprite at `pos` can be read without a panic: its names are UTF-8, and its SLP ID is
/// `-1` or not negative.
pub open spec fn sprite_readable(data: Seq<u8>, pos: int) -> bool {
    &&& text_field_readable(data, pos, 21)
    &&& text_field_readable(data, pos + 21, 13)
    &&& pos + 38 <= data.len() ==> i32_at(data, pos + 34) >= -1
}

/// The bytes of a list of sprite deltas.
pub open spec fn deltas_bytes(s: Seq<(Option<u16>, i16, i16, i16)>) -> Seq<u8>
    decreases s.len(),
{
    if s.len() == 0 {
        Seq::empty()
    } else {
        deltas_bytes(s.drop_last()) + sprite_delta_bytes(s.last())
    }
}

/// The bytes of a list of attack sounds, one entry after the other.
pub open spec fn attack_sound_entries_bytes(s: Seq<Seq<(i16, u16)>>) -> Seq<u8>
    decreases s.len(),
{
    if s.len() == 0 {
        Seq::empty()
    } else {
        attack_sound_entries_bytes(s.drop_last()) + attack_sounds_bytes(s.last())
    }
}

/// The bytes a sprite is stored as. The number of deltas is their count; attack sounds
/// are marked as used when there are any.
pub open spec fn sprite_bytes(v: SpriteView) -> Seq<u8> {
    text_field_bytes(v.name, 21) + text_field_bytes(v.filename, 13) + i32_bytes(
        match v.slp_id {
            Some(n) => n as i32,
            None => -1i32,
        },
    ) + flag_bytes(v.is_loaded) + seq![
        match v.force_player_color {
            Some(c) => c,
            None => 0xFFu8,
        },
    ] + sprite_look_bytes(v.look) + u16_bytes(v.deltas.len() as u16) + opt_u16_bytes(v.sound_id)
        + flag_bytes(v.attack_sounds.len() > 0) + sprite_frames_bytes(v.frames) + deltas_bytes(
        v.deltas,
    ) + attack_sound_entries_bytes(v.attack_sounds)
}

/// A sprite that can be written without a panic: attack sounds, if any, are given for
/// each angle, there are at most `u16::MAX` deltas, the sound ID fits in a signed 16-bit
/// number and the SLP ID in a signed 32-bit number.
pub open spec fn sprite_writable(v: SpriteView) -> bool {
    &&& v.attack_sounds.len() > 0 ==> v.attack_sounds.len() == v.frames.num_angles
    &&& v.deltas.len() <= u16::MAX
    &&& fits_i16(v.sound_id)
    &&& v.slp_id matches Some(n) ==> n <= 0x7FFF_FFFF
}

/// Whether the names of a sprite fit their fields (else writing fails).
pub open spec fn sprite_names_fit(v: SpriteView) -> bool {
    encode_utf8(v.name).len() <= 21 && encode_utf8(v.filename).len() <= 13
}

/// Reads `n` sprite deltas at `pos`.
fn read_deltas(input: &[u8], pos: usize, n: u16) -> (r: Result<(Vec<SpriteDelta>, usize), ReadError>)
    requires
        pos <= input.len(),
    ensures
        r is Ok <==> pos + 16 * n <= input.len(),
        r matches Ok((v, p)) ==> deltas_view(v@) == Seq::new(
            n as nat,
            |i: int| sprite_delta_at(input@, pos + 16 * i),
        ) && p == pos + 16 * n,
        r matches Err(e) ==> e == ReadError::UnexpectedEof,
{
    let mut v: Vec<SpriteDelta> = Vec::new();
    let mut p = pos;
    let mut i: u16 = 0;
    while i < n
        invariant
            i <= n,
            p == pos + 16 * i,
            p <= input.len(),
            v@.len() == i,
            forall|j: int| 0 <= j < i ==> #[trigger] v@[j]@ == sprite_delta_at(input@, pos + 16 * j),
        decreases n - i,
    {
        let (d, q) = SpriteDelta::read_from(input, p)?;
        v.push(d);
        p = q;
        i = i + 1;
    }
    assert(deltas_view(v@) =~= Seq::new(n as nat, |j: int| sprite_delta_at(input@, pos + 16 * j)));
    Ok((v, p))
}

/// Reads the attack sounds of `n` angles at `pos`.
fn read_attack_sounds(input: &[u8], pos: usize, n: u16) -> (r: Result<(Vec<SpriteAttackSound>, usize), ReadError>)
    requires
        pos <= input.len(),
    ensures
        r is Ok <==> pos + 12 * n <= input.len(),
        r matches Ok((v, p)) ==> attack_sounds_view(v@) == Seq::new(
            n as nat,
            |i: int| kept_sounds(stored_sounds(input@, pos + 12 * i)),
        ) && p == pos + 12 * n,
        r matches Err(e) ==> e == ReadError::UnexpectedEof,
{
    let mut v: Vec<SpriteAttackSound> = Vec::new();
    let mut p = pos;
    let mut i: u16 = 0;
    while i < n
        invariant
            i <= n,
            p == pos + 12 * i,
            p <= input.len(),
            v@.len() == i,
            forall|j: int|
                0 <= j < i ==> #[trigger] held_sounds(v@[j].sound_props) == kept_sounds(
                    stored_sounds(input@, pos + 12 * j),
                ),
        decreases n - i,
    {
        let (a, q) = SpriteAttackSound::read_from(input, p)?;
        v.push(a);
        p = q;
        i = i + 1;
    }
    assert(attack_sounds_view(v@) =~= Seq::new(
        n as nat,
        |j: int| kept_sounds(stored_sounds(input@, pos + 12 * j)),
    ));
    Ok((v, p))
}

impl Sprite {
    /// Read a sprite at `pos`; returns it and the position after it.
    #[verifier::rlimit(60)]
    pub fn read_from(input: &[u8], pos: usize) -> (r: Result<(Self, usize), ReadError>)
        requires
            sprite_readable(input@, pos as int),
        ensures
            match sprite_at(input@, pos as int) {
                Some((v, q)) => r matches Ok((s, p)) && s@ == v && p == q,
                None => r == Err::<(Self, usize), ReadError>(ReadError::UnexpectedEof),
            },
    {
        let (name, p) = read_text_field(input, pos, 21)?;
        let (filename, p) = read_text_field(input, p, 13)?;
        let (slp, p) = read_i32_le(input, p)?;
        let slp_id = if slp == -1 {
            None
        } else {
            Some(GraphicID::from(slp as u32))
        };
        let (is_loaded, p) = read_flag(input, p)?;
        let (color, p) = read_u8(input, p)?;
        let force_player_color = if color == 0xFF {
            None
        } else {
            Some(color)
        };
        let (a, p) = SpriteLookPart::read_from(input, p)?;
        let (num_deltas, p) = read_u16_le(input, p)?;
        let (sound_id, p) = read_opt_u16(input, p)?;
        let sound_id = sound_from_opt(sound_id);
        let (attack_sounds_used, p) = read_flag(input, p)?;
        let (b, p) = SpriteFramesPart::read_from(input, p)?;
        let (deltas, p) = read_deltas(input, p, num_deltas)?;
        let (attack_sounds, p) = if attack_sounds_used {
            read_attack_sounds(input, p, b.num_angles)?
        } else {
            (Vec::new(), p)
        };
        proof {
            if !attack_sounds_used {
                assert(attack_sounds_view(attack_sounds@) =~= Seq::<Seq<(i16, u16)>>::empty());
            }
        }
        Ok((Sprite { name, filename, slp_id, is_loaded, force_player_color, sound_id, deltas, attack_sounds, layer: a.layer, color_table: a.color_table, transparent_selection: a.transparent_selection, bounding_box: a.bounding_box, num_frames: b.num_frames, num_angles: b.num_angles, base_speed: b.base_speed, frame_rate: b.frame_rate, replay_delay: b.replay_delay, sequence_type: b.sequence_type, id: b.id, mirror_flag: b.mirror_flag, other_flag: b.other_flag }, p))
    }

    /// Append this sprite to `output`. If its name takes more than 21 bytes or its file
    /// name more than 13, nothing is written and `InvalidData` is returned.
    pub fn write_to(&self, output: &mut Vec<u8>) -> (r: Result<(), ReadError>)
        requires
            sprite_writable(self@),
        ensures
            r is Ok <==> sprite_names_fit(self@),
            r is Ok ==> final(output)@ == old(output)@ + sprite_bytes(self@),
            r is Err ==> r == Err::<(), ReadError>(ReadError::InvalidData) && final(output)@ == old(output)@,
    {
        if self.name.as_str().as_bytes().len() > 21 || self.filename.as_str().as_bytes().len() > 13 {
            return Err(ReadError::InvalidData);
        }
        write_text_field(output, self.name.as_str(), 21);
        let ghost mut acc = text_field_bytes(self@.name, 21);
        write_text_field(output, self.filename.as_str(), 13);
        proof {
            lemma_add_assoc(old(output)@, acc, text_field_bytes(self@.filename, 13));
            acc = acc + text_field_bytes(self@.filename, 13);
        }
        let slp: i32 = match self.slp_id {
            Some(g) => u32::from(g) as i32,
            None => -1,
        };
        put_i32_le(output, slp);
        proof {
            let b = i32_bytes(
                match self@.slp_id {
                    Some(n) => n as i32,
                    None => -1i32,
                },
            );
            lemma_add_assoc(old(output)@, acc, b);
            acc = acc + b;
        }
        put_flag(output, self.is_loaded);
        proof {
            lemma_add_assoc(old(output)@, acc, flag_bytes(self@.is_loaded));
            acc = acc + flag_bytes(self@.is_loaded);
        }
        let color: u8 = match self.force_player_color {
            Some(c) => c,
            None => 0xFF,
        };
        output.push(color);
        proof {
            let b = seq![
                match self@.force_player_color {
                    Some(c) => c,
                    None => 0xFFu8,
                },
            ];
            lemma_add_assoc(old(output)@, acc, b);
            acc = acc + b;
        }
        self.write_sprite_look(output);
        proof {
            lemma_add_assoc(old(output)@, acc, sprite_look_bytes(self@.look));
            acc = acc + sprite_look_bytes(self@.look);
        }
        put_u16_le(output, self.deltas.len() as u16);
        proof {
            lemma_add_assoc(old(output)@, acc, u16_bytes(self@.deltas.len() as u16));
            acc = acc + u16_bytes(self@.deltas.len() as u16);
        }
        put_opt_u16(output, sound_to_opt(self.sound_id));
        proof {
            lemma_add_assoc(old(output)@, acc, opt_u16_bytes(self@.sound_id));
            acc = acc + opt_u16_bytes(self@.sound_id);
        }
        put_flag(output, self.attack_sounds.len() > 0);
        proof {
            lemma_add_assoc(old(output)@, acc, flag_bytes(self@.attack_sounds.len() > 0));
            acc = acc + flag_bytes(self@.attack_sounds.len() > 0);
        }
        self.write_sprite_frames(output);
        proof {
            lemma_add_assoc(old(output)@, acc, sprite_frames_bytes(self@.frames));
            acc = acc + sprite_frames_bytes(self@.frames);
        }
        self.write_deltas(output);
        proof {
            lemma_add_assoc(old(output)@, acc, deltas_bytes(self@.deltas));
            acc = acc + deltas_bytes(self@.deltas);
        }
        self.write_attack_sounds(output);
        proof {
            lemma_add_assoc(old(output)@, acc, attack_sound_entries_bytes(self@.attack_sounds));
            acc = acc + attack_sound_entries_bytes(self@.attack_sounds);
        }
        Ok(())
    }

    fn write_deltas(&self, output: &mut Vec<u8>)
        ensures
            final(output)@ == old(output)@ + deltas_bytes(self@.deltas),
    {
        let ghost w = self@.deltas;
        assert(w.take(0) =~= Seq::<(Option<u16>, i16, i16, i16)>::empty());
        let mut i: usize = 0;
        while i < self.deltas.len()
            invariant
                i <= self.deltas.len(),
                w == self@.deltas,
                w == deltas_view(self.deltas@),
                output@ == old(output)@ + deltas_bytes(w.take(i as int)),
            decreases self.deltas.len() - i,
        {
            self.deltas[i].write_to(output);
            assert(w.take(i + 1).drop_last() =~= w.take(i as int));
            assert(w.take(i + 1).last() == self.deltas@[i as int]@);
            i = i + 1;
        }
        assert(w.take(self.deltas.len() as int) =~= w);
    }

    fn write_attack_sounds(&self, output: &mut Vec<u8>)
        ensures
            final(output)@ == old(output)@ + attack_sound_entries_bytes(self@.attack_sounds),
    {
        let ghost w = self@.attack_sounds;
        assert(w.take(0) =~= Seq::<Seq<(i16, u16)>>::empty());
        let mut i: usize = 0;
        while i < self.attack_sounds.len()
            invariant
                i <= self.attack_sounds.len(),
                w == self@.attack_sounds,
                w == attack_sounds_view(self.attack_sounds@),
                output@ == old(output)@ + attack_sound_entries_bytes(w.take(i as int)),
            decreases self.attack_sounds.len() - i,
        {
            self.attack_sounds[i].write_to(output);
            assert(w.take(i + 1).drop_last() =~= w.take(i as int));
            assert(w.take(i + 1).last() == held_sounds(self.attack_sounds@[i as int].sound_props));
            i = i + 1;
        }
        assert(w.take(self.attack_sounds.len() as int) =~= w);
    }

    fn write_sprite_look(&self, output: &mut Vec<u8>)
        requires
            sprite_look_writable(self@.look),
        ensures
            final(output)@ == old(output)@ + sprite_look_bytes(self@.look),
    {
        let ghost s0 = output@;
        output.push(self.layer);
        let ghost mut acc = seq![self@.look.layer];
        assert(output@ == s0 + acc);
        put_u16_le(output, self.color_table);
        proof {
            lemma_add_assoc(s0, acc, u16_bytes(self@.look.color_table));
            acc = acc + u16_bytes(self@.look.color_table);
        }
        put_flag(output, self.transparent_selection);
        proof {
            lemma_add_assoc(s0, acc, flag_bytes(self@.look.transparent_selection));
            acc = acc + flag_bytes(self@.look.transparent_selection);
        }
        put_i16_le(output, self.bounding_box.0);
        proof {
            lemma_add_assoc(s0, acc, i16_bytes(self@.look.bounding_box_0));
            acc = acc + i16_bytes(self@.look.bounding_box_0);
        }
        put_i16_le(output, self.bounding_box.1);
        proof {
            lemma_add_assoc(s0, acc, i16_bytes(self@.look.bounding_box_1));
            acc = acc + i16_bytes(self@.look.bounding_box_1);
        }
        put_i16_le(output, self.bounding_box.2);
        proof {
            lemma_add_assoc(s0, acc, i16_bytes(self@.look.bounding_box_2));
            acc = acc + i16_bytes(self@.look.bounding_box_2);
        }
        put_i16_le(output, self.bounding_box.3);
        proof {
            lemma_add_assoc(s0, acc, i16_bytes(self@.look.bounding_box_3));
            acc = acc + i16_bytes(self@.look.bounding_box_3);
        }
        assert(acc == sprite_look_bytes(self@.look));
    }

    fn write_sprite_frames_1(&self, output: &mut Vec<u8>)
        requires
            sprite_frames_writable(self@.frames),
        ensures
            final(output)@ == old(output)@ + sprite_frames_bytes_1(self@.frames),
    {
        let ghost s0 = output@;
        put_u16_le(output, self.num_frames);
        let ghost mut acc = u16_bytes(self@.frames.num_frames);
        assert(output@ == s0 + acc);
        put_u16_le(output, self.num_angles);
        proof {
            lemma_add_assoc(s0, acc, u16_bytes(self@.frames.num_angles));
            acc = acc + u16_bytes(self@.frames.num_angles);
        }
        put_u32_le(output, self.base_speed);
        proof {
            lemma_add_assoc(s0, acc, u32_bytes(self@.frames.base_speed));
            acc = acc + u32_bytes(self@.frames.base_speed);
        }
        put_u32_le(output, self.frame_rate);
        proof {
            lemma_add_assoc(s0, acc, u32_bytes(self@.frames.frame_rate));
            acc = acc + u32_bytes(self@.frames.frame_rate);
        }
        put_u32_le(output, self.replay_delay);
        proof {
            lemma_add_assoc(s0, acc, u32_bytes(self@.frames.replay_delay));
            acc = acc + u32_bytes(self@.frames.replay_delay);
        }
        output.push(self.sequence_type);
        proof {
            lemma_add_assoc(s0, acc, seq![self@.frames.sequence_type]);
            acc = acc + seq![self@.frames.sequence_type];
        }
        put_u16_le(output, u16::from(self.id));
        proof {
            lemma_add_assoc(s0, acc, u16_bytes(self@.frames.id));
            acc = acc + u16_bytes(self@.frames.id);
        }
        assert(acc == sprite_frames_bytes_1(self@.frames));
    }

    fn write_sprite_frames_2(&self, output: &mut Vec<u8>)
        requires
            sprite_frames_writable(self@.frames),
        ensures
            final(output)@ == old(output)@ + sprite_frames_bytes_2(self@.frames),
    {
        let ghost s0 = output@;
        put_i8(output, self.mirror_flag);
        let ghost mut acc = i8_bytes(self@.frames.mirror_flag);
        assert(output@ == s0 + acc);
        put_i8(output, self.other_flag);
        proof {
            lemma_add_assoc(s0, acc, i8_bytes(self@.frames.other_flag));
            acc = acc + i8_bytes(self@.frames.other_flag);
        }
        assert(acc == sprite_frames_bytes_2(self@.frames));
    }

    fn write_sprite_frames(&self, output: &mut Vec<u8>)
        requires
            sprite_frames_writable(self@.frames),
        ensures
            final(output)@ == old(output)@ + sprite_frames_bytes(self@.frames),
    {
        self.write_sprite_frames_1(output);
        self.write_sprite_frames_2(output);
        assert(output@ =~= old(output)@ + sprite_frames_bytes(self@.frames));
    }

}

} // verus!
