//! Terrains and terrain borders, as a data file stores them.
use crate::codec::{
    bytes_until_nul, i16_at, i32_at, opt_u16_at, read_bytes, read_i16_le, read_i32_le, read_i8,
    read_opt_u16, read_u16_le, read_u8, u16_at, until_nul, ReadError,
};
use crate::dat::fields::{i8_at, opt_graphic, opt_sound, opt_terrain, read_flag, terrain_from_opt};
use crate::dat::ids::{GraphicID, SoundID, TerrainID, UnitTypeID};
use crate::dat::terrain::{i16_triple_at, TerrainObject, TerrainSpriteFrame};
use crate::dat::terrain_tables::{terrain_animation_at, TerrainAnimation, TerrainAnimationView};
use crate::dat::version::FileVersion;
use crate::text::push_char;
use arrayvec::ArrayString;
use vstd::prelude::*;
use vstd::string::StringSliceAdditionalSpecFns;
use vstd::utf8::encode_utf8;

verus! {

/// The text that a terrain name of `arrayvec` holds.
pub uninterp spec fn held_terrain_name(s: ArrayString<13>) -> Seq<char>;

/// `ArrayString::from`: the name holding `s`, which fails when `s` takes more than 13 bytes.
#[verifier::external_body]
fn terrain_name_from(s: &str) -> (r: Option<ArrayString<13>>)
    ensures
        r is Some <==> s.spec_bytes().len() <= 13,
        r matches Some(a) ==> held_terrain_name(a) == s@,
{
    match ArrayString::<13>::from(s) {
        Ok(a) => Some(a),
        Err(_) => None,
    }
}

/// `ArrayString::as_str`: the text held.
#[verifier::external_body]
fn terrain_name_str(a: &ArrayString<13>) -> (r: &str)
    ensures
        r@ == held_terrain_name(*a),
{
    a.as_str()
}

/// The characters with the codes of the bytes `b` (each byte read as Latin-1).
pub open spec fn latin1_text(b: Seq<u8>) -> Seq<char> {
    b.map_values(|x: u8| x as char)
}

/// The name stored in the 13 bytes at `pos`: the bytes before the first NUL, each taken as
/// the character with its code.
pub open spec fn terrain_name_at(data: Seq<u8>, pos: int) -> Seq<char> {
    latin1_text(until_nul(data.subrange(pos, pos + 13)))
}

/// The name at `pos` takes at most 13 bytes as UTF-8, where the input holds it (a longer one
/// does not fit in the name, and reading it panics).
pub open spec fn terrain_name_fits(data: Seq<u8>, pos: int) -> bool {
    0 <= pos && pos + 13 <= data.len() ==> encode_utf8(terrain_name_at(data, pos)).len() <= 13
}

/// Reads a terrain name of 13 bytes at `pos`.
fn read_terrain_name(input: &[u8], pos: usize) -> (r: Result<(ArrayString<13>, usize), ReadError>)
    requires
        terrain_name_fits(input@, pos as int),
    ensures
        r is Ok <==> pos + 13 <= input.len(),
        r matches Ok((a, p)) ==> held_terrain_name(a) == terrain_name_at(input@, pos as int) && p
            == pos + 13,
        r matches Err(e) ==> e == ReadError::UnexpectedEof,
{
    let (raw, p) = read_bytes(input, pos, 13)?;
    let kept = bytes_until_nul(raw.as_slice());
    let mut text = String::new();
    let mut i: usize = 0;
    while i < kept.len()
        invariant
            i <= kept.len(),
            text@ == latin1_text(kept@.take(i as int)),
        decreases kept.len() - i,
    {
        push_char(&mut text, kept[i] as char);
        assert(latin1_text(kept@.take(i + 1)) =~= latin1_text(kept@.take(i as int)).push(
            kept@[i as int] as char,
        ));
        i = i + 1;
    }
    assert(kept@.take(kept.len() as int) =~= kept@);
    match terrain_name_from(text.as_str()) {
        Some(a) => Ok((a, p)),
        None => {
            assert(false);
            Err(ReadError::InvalidData)
        },
    }
}

/// An ID stored as a signed 32-bit number, `-1` for none.
pub open spec fn neg1_id_at(data: Seq<u8>, pos: int) -> Option<u32> {
    if i32_at(data, pos) == -1 {
        None
    } else {
        Some(i32_at(data, pos) as u32)
    }
}

/// A byte that stands for none when it is `0xFF`.
pub open spec fn byte_opt(b: u8) -> Option<u8> {
    if b == 0xFF {
        None
    } else {
        Some(b)
    }
}

/// Reads `n` sprite frames at `pos`.
fn read_frames(input: &[u8], pos: usize, n: usize) -> (r: Result<(Vec<TerrainSpriteFrame>, usize), ReadError>)
    requires
        pos <= input.len(),
        n <= 19,
    ensures
        r is Ok <==> pos + 6 * n <= input.len(),
        r matches Ok((v, p)) ==> frame_values(v@) == Seq::new(
            n as nat,
            |i: int| i16_triple_at(input@, pos + 6 * i),
        ) && p == pos + 6 * n,
        r matches Err(e) ==> e == ReadError::UnexpectedEof,
{
    let mut v: Vec<TerrainSpriteFrame> = Vec::new();
    let mut p = pos;
    let mut i: usize = 0;
    while i < n
        invariant
            i <= n <= 19,
            p == pos + 6 * i,
            p <= input.len(),
            v@.len() == i,
            forall|j: int| 0 <= j < i ==> #[trigger] v@[j]@ == i16_triple_at(input@, pos + 6 * j),
        decreases n - i,
    {
        let (f, q) = TerrainSpriteFrame::from(input, p)?;
        v.push(f);
        p = q;
        i = i + 1;
    }
    assert(frame_values(v@) =~= Seq::new(
        n as nat,
        |j: int| i16_triple_at(input@, pos + 6 * j),
    ));
    Ok((v, p))
}

/// Reads `n` signed 16-bit numbers at `pos`.
fn read_i16s(input: &[u8], pos: usize, n: u16) -> (r: Result<(Vec<i16>, usize), ReadError>)
    requires
        pos <= input.len(),
    ensures
        r is Ok <==> pos + 2 * n <= input.len(),
        r matches Ok((v, p)) ==> v@ == Seq::new(n as nat, |i: int| i16_at(input@, pos + 2 * i)) && p
            == pos + 2 * n,
        r matches Err(e) ==> e == ReadError::UnexpectedEof,
{
    let mut v: Vec<i16> = Vec::new();
    let mut p = pos;
    let mut i: u16 = 0;
    while i < n
        invariant
            i <= n,
            p == pos + 2 * i,
            p <= input.len(),
            v@ == Seq::new(i as nat, |j: int| i16_at(input@, pos + 2 * j)),
        decreases n - i,
    {
        let (x, q) = read_i16_le(input, p)?;
        v.push(x);
        assert(v@ =~= Seq::new((i + 1) as nat, |j: int| i16_at(input@, pos + 2 * j)));
        p = q;
        i = i + 1;
    }
    Ok((v, p))
}

/// The values of a terrain object: its unit type, density and placement flag.
pub open spec fn terrain_object_view(o: TerrainObject) -> (u16, i16, i8) {
    (o.object_id@, o.density, o.placement_flag)
}

/// The 30 terrain objects stored at `pos`: their unit types, then their densities, then
/// their placement flags.
pub open spec fn terrain_objects_at(data: Seq<u8>, pos: int) -> Seq<(u16, i16, i8)> {
    Seq::new(30, |i: int| (u16_at(data, pos + 2 * i), i16_at(data, pos + 60 + 2 * i), i8_at(data, pos + 120 + i)))
}

/// Reads the 30 terrain objects at `pos`.
fn read_objects(input: &[u8], pos: usize) -> (r: Result<(Vec<TerrainObject>, usize), ReadError>)
    ensures
        r is Ok <==> pos + 150 <= input.len(),
        r matches Ok((v, p)) ==> v@.map_values(|o: TerrainObject| terrain_object_view(o))
            == terrain_objects_at(input@, pos as int) && p == pos + 150,
        r matches Err(e) ==> e == ReadError::UnexpectedEof,
{
    if pos > input.len() || input.len() - pos < 150 {
        return Err(ReadError::UnexpectedEof);
    }
    let mut v: Vec<TerrainObject> = Vec::new();
    let mut i: usize = 0;
    while i < 30
        invariant
            i <= 30,
            pos + 150 <= input.len(),
            v@.len() == i,
            forall|j: int|
                0 <= j < i ==> #[trigger] terrain_object_view(v@[j]) == terrain_objects_at(
                    input@,
                    pos as int,
                )[j],
        decreases 30 - i,
    {
        let (id, _) = read_u16_le(input, pos + 2 * i)?;
        let (density, _) = read_i16_le(input, pos + 60 + 2 * i)?;
        let (flag, _) = read_i8(input, pos + 120 + i)?;
        v.push(TerrainObject { object_id: UnitTypeID::from(id), density, placement_flag: flag });
        i = i + 1;
    }
    assert(v@.map_values(|o: TerrainObject| terrain_object_view(o)) =~= terrain_objects_at(
        input@,
        pos as int,
    ));
    Ok((v, pos + 150))
}

/// Reads an ID stored as a signed 32-bit number, `-1` for none.
fn read_neg1_id(input: &[u8], pos: usize) -> (r: Result<(Option<u32>, usize), ReadError>)
    requires
        pos + 4 <= input.len() ==> i32_at(input@, pos as int) >= -1,
    ensures
        r is Ok <==> pos + 4 <= input.len(),
        r matches Ok((v, p)) ==> v == neg1_id_at(input@, pos as int) && p == pos + 4,
        r matches Err(e) ==> e == ReadError::UnexpectedEof,
{
    let (n, p) = read_i32_le(input, pos)?;
    if n == -1 {
        Ok((None, p))
    } else {
        Ok((Some(n as u32), p))
    }
}

/// A terrain type.
#[derive(Debug, Default, Clone)]
pub struct Terrain {
    pub enabled: bool,
    random: u8,
    name: ArrayString<13>,
    slp_name: ArrayString<13>,
    pub slp_id: Option<GraphicID>,
    pub sound_id: Option<SoundID>,
    blend_priority: Option<i32>,
    blend_mode: Option<i32>,
    pub minimap_color_high: u8,
    pub minimap_color_medium: u8,
    pub minimap_color_low: u8,
    pub minimap_color_cliff_lt: u8,
    pub minimap_color_cliff_rt: u8,
    pub passable_terrain_id: Option<u8>,
    pub impassable_terrain_id: Option<u8>,
    pub animation: TerrainAnimation,
    pub elevation_sprites: Vec<TerrainSpriteFrame>,
    pub terrain_id_to_draw: Option<TerrainID>,
    rows: i16,
    cols: i16,
    pub borders: Vec<i16>,
    pub terrain_objects: Vec<TerrainObject>,
}

/// The values of a terrain.
pub ghost struct TerrainView {
    pub enabled: bool,
    pub random: u8,
    pub name: Seq<char>,
    pub slp_name: Seq<char>,
    pub slp_id: Option<u32>,
    pub sound_id: Option<u16>,
    pub blend_priority: Option<i32>,
    pub blend_mode: Option<i32>,
    pub minimap_colors: (u8, u8, u8, u8, u8),
    pub passable_terrain_id: Option<u8>,
    pub impassable_terrain_id: Option<u8>,
    pub animation: TerrainAnimationView,
    pub elevation_sprites: Seq<(i16, i16, i16)>,
    pub terrain_id_to_draw: Option<u16>,
    pub rows: i16,
    pub cols: i16,
    pub borders: Seq<i16>,
    pub terrain_objects: Seq<(u16, i16, i8)>,
}

impl View for Terrain {
    type V = TerrainView;

    closed spec fn view(&self) -> TerrainView {
        TerrainView {
            enabled: self.enabled,
            random: self.random,
            name: held_terrain_name(self.name),
            slp_name: held_terrain_name(self.slp_name),
            slp_id: opt_graphic(self.slp_id),
            sound_id: opt_sound(self.sound_id),
            blend_priority: self.blend_priority,
            blend_mode: self.blend_mode,
            minimap_colors: (
                self.minimap_color_high,
                self.minimap_color_medium,
                self.minimap_color_low,
                self.minimap_color_cliff_lt,
                self.minimap_color_cliff_rt,
            ),
            passable_terrain_id: self.passable_terrain_id,
            impassable_terrain_id: self.impassable_terrain_id,
            animation: self.animation@,
            elevation_sprites: frame_values(self.elevation_sprites@),
            terrain_id_to_draw: opt_terrain(self.terrain_id_to_draw),
            rows: self.rows,
            cols: self.cols,
            borders: self.borders@,
            terrain_objects: self.terrain_objects@.map_values(|o: TerrainObject| terrain_object_view(o)),
        }
    }
}

/// The terrain stored at `pos` in a data file with `n` terrains: flags and names, the SLP
/// and sound IDs (`-1` for none) around a pointer, the blend priority and mode, the minimap
/// colours, the passable and impassable terrains (`0xFF` for none), the animation, 19
/// elevation sprite frames, the terrain to draw, the rows and columns, a border per
/// terrain, 30 terrain objects, their count and two bytes of padding; and the position
/// after it.
pub open spec fn terrain_at(data: Seq<u8>, pos: int, n: nat) -> Option<(TerrainView, int)> {
    let o = pos + 198 + 2 * n;
    if o + 154 > data.len() {
        None
    } else {
        Some(
            (
                TerrainView {
                    enabled: data[pos] != 0,
                    random: data[pos + 1],
                    name: terrain_name_at(data, pos + 2),
                    slp_name: terrain_name_at(data, pos + 15),
                    slp_id: neg1_id_at(data, pos + 28),
                    sound_id: match neg1_id_at(data, pos + 36) {
                        Some(s) => Some(s as u16),
                        None => None,
                    },
                    blend_priority: Some(i32_at(data, pos + 40)),
                    blend_mode: Some(i32_at(data, pos + 44)),
                    minimap_colors: (data[pos + 48], data[pos + 49], data[pos + 50], data[pos + 51], data[pos + 52]),
                    passable_terrain_id: byte_opt(data[pos + 53]),
                    impassable_terrain_id: byte_opt(data[pos + 54]),
                    animation: terrain_animation_at(data, pos + 55),
                    elevation_sprites: Seq::new(19, |i: int| i16_triple_at(data, pos + 78 + 6 * i)),
                    terrain_id_to_draw: opt_u16_at(data, pos + 192),
                    rows: i16_at(data, pos + 194),
                    cols: i16_at(data, pos + 196),
                    borders: Seq::new(n, |i: int| i16_at(data, pos + 198 + 2 * i)),
                    terrain_objects: terrain_objects_at(data, o),
                },
                o + 154,
            ),
        )
    }
}

/// The terrain at `pos` can be read without a panic: its names fit, its SLP ID is `-1` or
/// not negative, and its sound ID is `-1` or a 16-bit number.
pub open spec fn terrain_readable(data: Seq<u8>, pos: int) -> bool {
    &&& terrain_name_fits(data, pos + 2)
    &&& terrain_name_fits(data, pos + 15)
    &&& pos + 32 <= data.len() ==> i32_at(data, pos + 28) >= -1
    &&& pos + 40 <= data.len() ==> -1 <= i32_at(data, pos + 36) <= 0xFFFF
}

impl Terrain {
    /// The name of the terrain.
    pub fn name(&self) -> (s: &str)
        ensures
            s@ == self@.name,
    {
        terrain_name_str(&self.name)
    }

    /// Read a terrain at `pos` in a data file with `num_terrains` terrains; returns it and
    /// the position after it.
    #[verifier::rlimit(40)]
    pub fn from(input: &[u8], pos: usize, version: FileVersion, num_terrains: u16) -> (r: Result<(Self, usize), ReadError>)
        requires
            terrain_readable(input@, pos as int),
        ensures
            match terrain_at(input@, pos as int, num_terrains as nat) {
                Some((v, q)) => r matches Ok((t, p)) && t@ == v && p == q,
                None => r == Err::<(Self, usize), ReadError>(ReadError::UnexpectedEof),
            },
    {
        let (enabled, p) = read_flag(input, pos)?;
        let (random, p) = read_u8(input, p)?;
        let (name, p) = read_terrain_name(input, p)?;
        let (slp_name, p) = read_terrain_name(input, p)?;
        let (slp, p) = read_neg1_id(input, p)?;
        let slp_id = match slp {
            Some(n) => Some(GraphicID::from(n)),
            None => None,
        };
        let (_slp_pointer, p) = read_i32_le(input, p)?;
        let (sound, p) = read_neg1_id(input, p)?;
        let sound_id = match sound {
            Some(n) => Some(SoundID::from(n as u16)),
            None => None,
        };
        let (blend_priority, p) = read_i32_le(input, p)?;
        let (blend_mode, p) = read_i32_le(input, p)?;
        let (minimap_color_high, p) = read_u8(input, p)?;
        let (minimap_color_medium, p) = read_u8(input, p)?;
        let (minimap_color_low, p) = read_u8(input, p)?;
        let (minimap_color_cliff_lt, p) = read_u8(input, p)?;
        let (minimap_color_cliff_rt, p) = read_u8(input, p)?;
        let (passable, p) = read_u8(input, p)?;
        let passable_terrain_id = if passable == 0xFF {
            None
        } else {
            Some(passable)
        };
        let (impassable, p) = read_u8(input, p)?;
        let impassable_terrain_id = if impassable == 0xFF {
            None
        } else {
            Some(impassable)
        };
        let (animation, p) = TerrainAnimation::from(input, p)?;
        let (elevation_sprites, p) = read_frames(input, p, 19)?;
        let (draw, p) = read_opt_u16(input, p)?;
        let terrain_id_to_draw = terrain_from_opt(draw);
        let (rows, p) = read_i16_le(input, p)?;
        let (cols, p) = read_i16_le(input, p)?;
        let (borders, p) = read_i16s(input, p, num_terrains)?;
        let (terrain_objects, p) = read_objects(input, p)?;
        let (_num_terrain_objects, p) = read_u16_le(input, p)?;
        let (_padding, p) = read_u16_le(input, p)?;
        Ok(
            (
                Terrain {
                    enabled,
                    random,
                    name,
                    slp_name,
                    slp_id,
                    sound_id,
                    blend_priority: Some(blend_priority),
                    blend_mode: Some(blend_mode),
                    minimap_color_high,
                    minimap_color_medium,
                    minimap_color_low,
                    minimap_color_cliff_lt,
                    minimap_color_cliff_rt,
                    passable_terrain_id,
                    impassable_terrain_id,
                    animation,
                    elevation_sprites,
                    terrain_id_to_draw,
                    rows,
                    cols,
                    borders,
                    terrain_objects,
                },
                p,
            ),
        )
    }
}

/// A terrain border: how two terrains are blended.
#[derive(Debug, Default)]
pub struct TerrainBorder {
    pub enabled: bool,
    random: u8,
    name: ArrayString<13>,
    slp_name: ArrayString<13>,
    pub slp_id: Option<GraphicID>,
    pub sound_id: Option<SoundID>,
    pub color: (u8, u8, u8),
    pub animation: TerrainAnimation,
    pub frames: Vec<Vec<TerrainSpriteFrame>>,
    draw_tile: i8,
    pub underlay_terrain: Option<i16>,
    pub border_style: i16,
}

/// The values of a terrain border.
pub ghost struct TerrainBorderView {
    pub enabled: bool,
    pub random: u8,
    pub name: Seq<char>,
    pub slp_name: Seq<char>,
    pub slp_id: Option<u32>,
    pub sound_id: Option<u16>,
    pub color: (u8, u8, u8),
    pub animation: TerrainAnimationView,
    pub frames: Seq<Seq<(i16, i16, i16)>>,
    pub draw_tile: i8,
    pub underlay_terrain: Option<i16>,
    pub border_style: i16,
}

/// The values of a list of sprite frames.
pub open spec fn frame_values(l: Seq<TerrainSpriteFrame>) -> Seq<(i16, i16, i16)> {
    l.map_values(|f: TerrainSpriteFrame| f@)
}

/// The values of lists of sprite frames.
pub open spec fn frame_lists_view(v: Seq<Vec<TerrainSpriteFrame>>) -> Seq<Seq<(i16, i16, i16)>> {
    v.map_values(|l: Vec<TerrainSpriteFrame>| frame_values(l@))
}

impl View for TerrainBorder {
    type V = TerrainBorderView;

    closed spec fn view(&self) -> TerrainBorderView {
        TerrainBorderView {
            enabled: self.enabled,
            random: self.random,
            name: held_terrain_name(self.name),
            slp_name: held_terrain_name(self.slp_name),
            slp_id: opt_graphic(self.slp_id),
            sound_id: opt_sound(self.sound_id),
            color: self.color,
            animation: self.animation@,
            frames: frame_lists_view(self.frames@),
            draw_tile: self.draw_tile,
            underlay_terrain: self.underlay_terrain,
            border_style: self.border_style,
        }
    }
}

/// The 19 lists of 12 sprite frames stored at `pos`.
pub open spec fn border_frames_at(data: Seq<u8>, pos: int) -> Seq<Seq<(i16, i16, i16)>> {
    Seq::new(19, |i: int| Seq::new(12, |j: int| i16_triple_at(data, pos + 72 * i + 6 * j)))
}

/// The terrain border stored at `pos`: flags and names, the SLP and sound IDs (`-1` for
/// none) around a pointer, the colour, the animation, 19 lists of 12 sprite frames, the tile
/// to draw, a padding byte, the underlay terrain (`-1` for none) and the border style; and
/// the position after it.
pub open spec fn terrain_border_at(data: Seq<u8>, pos: int) -> Option<(TerrainBorderView, int)> {
    if pos + 1440 > data.len() {
        None
    } else {
        Some(
            (
                TerrainBorderView {
                    enabled: data[pos] != 0,
                    random: data[pos + 1],
                    name: terrain_name_at(data, pos + 2),
                    slp_name: terrain_name_at(data, pos + 15),
                    slp_id: neg1_id_at(data, pos + 28),
                    sound_id: match neg1_id_at(data, pos + 36) {
                        Some(s) => Some(s as u16),
                        None => None,
                    },
                    color: (data[pos + 40], data[pos + 41], data[pos + 42]),
                    animation: terrain_animation_at(data, pos + 43),
                    frames: border_frames_at(data, pos + 66),
                    draw_tile: i8_at(data, pos + 1434),
                    underlay_terrain: if i16_at(data, pos + 1436) == -1 {
                        None
                    } else {
                        Some(i16_at(data, pos + 1436))
                    },
                    border_style: i16_at(data, pos + 1438),
                },
                pos + 1440,
            ),
        )
    }
}

/// Reads the 19 lists of 12 sprite frames at `pos`.
fn read_border_frames(input: &[u8], pos: usize) -> (r: Result<(Vec<Vec<TerrainSpriteFrame>>, usize), ReadError>)
    requires
        pos <= input.len(),
    ensures
        r is Ok <==> pos + 1368 <= input.len(),
        r matches Ok((v, p)) ==> frame_lists_view(v@) == border_frames_at(input@, pos as int) && p
            == pos + 1368,
        r matches Err(e) ==> e == ReadError::UnexpectedEof,
{
    let mut v: Vec<Vec<TerrainSpriteFrame>> = Vec::new();
    let mut p = pos;
    let mut i: usize = 0;
    while i < 19
        invariant
            i <= 19,
            p == pos + 72 * i,
            p <= input.len(),
            v@.len() == i,
            forall|j: int|
                0 <= j < i ==> #[trigger] frame_values(v@[j]@)
                    == border_frames_at(input@, pos as int)[j],
        decreases 19 - i,
    {
        let (l, q) = read_frames(input, p, 12)?;
        assert(frame_values(l@) =~= border_frames_at(input@, pos as int)[i as int]);
        v.push(l);
        p = q;
        i = i + 1;
    }
    assert(frame_lists_view(v@) =~= border_frames_at(input@, pos as int));
    Ok((v, p))
}

impl TerrainBorder {
    /// Read a terrain border at `pos`; returns it and the position after it.
    #[verifier::rlimit(40)]
    pub fn from(input: &[u8], pos: usize) -> (r: Result<(Self, usize), ReadError>)
        requires
            terrain_readable(input@, pos as int),
        ensures
            match terrain_border_at(input@, pos as int) {
                Some((v, q)) => r matches Ok((t, p)) && t@ == v && p == q,
                None => r == Err::<(Self, usize), ReadError>(ReadError::UnexpectedEof),
            },
    {
        let (enabled, p) = read_flag(input, pos)?;
        let (random, p) = read_u8(input, p)?;
        let (name, p) = read_terrain_name(input, p)?;
        let (slp_name, p) = read_terrain_name(input, p)?;
        let (slp, p) = read_neg1_id(input, p)?;
        let slp_id = match slp {
            Some(n) => Some(GraphicID::from(n)),
            None => None,
        };
        let (_slp_pointer, p) = read_i32_le(input, p)?;
        let (sound, p) = read_neg1_id(input, p)?;
        let sound_id = match sound {
            Some(n) => Some(SoundID::from(n as u16)),
            None => None,
        };
        let (c0, p) = read_u8(input, p)?;
        let (c1, p) = read_u8(input, p)?;
        let (c2, p) = read_u8(input, p)?;
        let (animation, p) = TerrainAnimation::from(input, p)?;
        let (frames, p) = read_border_frames(input, p)?;
        let (draw_tile, p) = read_i8(input, p)?;
        let (_padding, p) = read_u8(input, p)?;
        let (underlay, p) = read_i16_le(input, p)?;
        let underlay_terrain = if underlay == -1 {
            None
        } else {
            Some(underlay)
        };
        let (border_style, p) = read_i16_le(input, p)?;
        Ok(
            (
                TerrainBorder {
                    enabled,
                    random,
                    name,
                    slp_name,
                    slp_id,
                    sound_id,
                    color: (c0, c1, c2),
                    animation,
                    frames,
                    draw_tile,
                    underlay_terrain,
                    border_style,
                },
                p,
            ),
        )
    }
}

} // verus!
