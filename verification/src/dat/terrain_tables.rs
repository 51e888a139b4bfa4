//! Terrain animations and terrain restriction tables: how fast units cross each terrain,
//! and the sprites drawn while they do.
use crate::codec::{
    i16_at, i16_bytes, i32_at, i32_bytes, lemma_add_assoc, lemma_field_lens, lemma_i16_field,
    lemma_pow256_values, lemma_u32_field, opt_u32_at, opt_u32_bytes, put_i16_le, put_i32_le,
    put_u32_le, read_i16_le, read_i32_le, read_u32_le, u32_at, u32_bytes, ReadError,
};
use crate::dat::fields::{
    flag_at, flag_bytes, id32_of, lemma_flag_field, lemma_opt32_id_field, opt32_id_at,
    opt32_id_readable, opt_sprite, put_flag, put_opt_id32, read_flag, read_opt_id32,
    sprite_from_opt, sprite_to_opt,
};
use crate::dat::ids::SpriteID;
use crate::dat::version::FileVersion;
use vstd::prelude::*;

verus! {

/// The animation of a terrain; intervals, delays and times are bit patterns of `f32`s.
#[derive(Debug, Default, Clone)]
pub struct TerrainAnimation {
    pub enabled: bool,
    num_frames: i16,
    num_pause_frames: i16,
    frame_interval: u32,
    replay_delay: u32,
    frame: i16,
    draw_frame: i16,
    animate_last: u32,
    frame_changed: bool,
    drawn: bool,
}

impl View for TerrainAnimation {
    type V = TerrainAnimationView;

    closed spec fn view(&self) -> TerrainAnimationView {
        TerrainAnimationView {
            enabled: self.enabled,
            num_frames: self.num_frames,
            num_pause_frames: self.num_pause_frames,
            frame_interval: self.frame_interval,
            replay_delay: self.replay_delay,
            frame: self.frame,
            draw_frame: self.draw_frame,
            animate_last: self.animate_last,
            frame_changed: self.frame_changed,
            drawn: self.drawn,
        }
    }
}

/// The fields of a terrain animation as values.
pub ghost struct TerrainAnimationView {
    pub enabled: bool,
    pub num_frames: i16,
    pub num_pause_frames: i16,
    pub frame_interval: u32,
    pub replay_delay: u32,
    pub frame: i16,
    pub draw_frame: i16,
    pub animate_last: u32,
    pub frame_changed: bool,
    pub drawn: bool,
}

/// The terrain animation stored at `pos`.
pub open spec fn terrain_animation_at(data: Seq<u8>, pos: int) -> TerrainAnimationView {
    TerrainAnimationView {
        enabled: flag_at(data, pos),
        num_frames: i16_at(data, pos + 1),
        num_pause_frames: i16_at(data, pos + 3),
        frame_interval: u32_at(data, pos + 5),
        replay_delay: u32_at(data, pos + 9),
        frame: i16_at(data, pos + 13),
        draw_frame: i16_at(data, pos + 15),
        animate_last: u32_at(data, pos + 17),
        frame_changed: flag_at(data, pos + 21),
        drawn: flag_at(data, pos + 22),
    }
}

/// Part 1 of the bytes of a terrain animation.
pub open spec fn terrain_animation_bytes_1(v: TerrainAnimationView) -> Seq<u8> {
    flag_bytes(v.enabled)
        + i16_bytes(v.num_frames)
        + i16_bytes(v.num_pause_frames)
        + u32_bytes(v.frame_interval)
        + u32_bytes(v.replay_delay)
        + i16_bytes(v.frame)
        + i16_bytes(v.draw_frame)
}

/// Part 2 of the bytes of a terrain animation.
pub open spec fn terrain_animation_bytes_2(v: TerrainAnimationView) -> Seq<u8> {
    u32_bytes(v.animate_last)
        + flag_bytes(v.frame_changed)
        + flag_bytes(v.drawn)
}

/// The 23 bytes a terrain animation is stored as.
pub open spec fn terrain_animation_bytes(v: TerrainAnimationView) -> Seq<u8> {
    terrain_animation_bytes_1(v)
        + terrain_animation_bytes_2(v)
}

/// The values that can be written: IDs that the game writes as signed numbers fit.
pub open spec fn terrain_animation_writable(v: TerrainAnimationView) -> bool {
    true
}

/// The values that read back as written: IDs fit, and none is `0xFFFF`.
pub open spec fn terrain_animation_exact(v: TerrainAnimationView) -> bool {
    true
}

impl TerrainAnimation {
    /// Read a terrain animation at `pos`; returns it and the position after it.
    pub fn from(input: &[u8], pos: usize) -> (r: Result<(Self, usize), ReadError>)
        ensures
            r is Ok <==> pos + 23 <= input.len(),
            r matches Ok((x, q)) ==> x@ == terrain_animation_at(input@, pos as int) && q == pos + 23,
            r matches Err(e) ==> e == ReadError::UnexpectedEof,
    {
        let p = pos;
        let (enabled, p) = read_flag(input, p)?;
        let (num_frames, p) = read_i16_le(input, p)?;
        let (num_pause_frames, p) = read_i16_le(input, p)?;
        let (frame_interval, p) = read_u32_le(input, p)?;
        let (replay_delay, p) = read_u32_le(input, p)?;
        let (frame, p) = read_i16_le(input, p)?;
        let (draw_frame, p) = read_i16_le(input, p)?;
        let (animate_last, p) = read_u32_le(input, p)?;
        let (frame_changed, p) = read_flag(input, p)?;
        let (drawn, p) = read_flag(input, p)?;
        Ok((TerrainAnimation { enabled, num_frames, num_pause_frames, frame_interval, replay_delay, frame, draw_frame, animate_last, frame_changed, drawn }, p))
    }

    fn write_part_1(&self, output: &mut Vec<u8>)
        requires
            terrain_animation_writable(self@),
        ensures
            final(output)@ == old(output)@ + terrain_animation_bytes_1(self@),
    {
        let ghost s0 = output@;
        put_flag(output, self.enabled);
        let ghost mut acc = flag_bytes(self@.enabled);
        assert(output@ == s0 + acc);
        put_i16_le(output, self.num_frames);
        proof {
            lemma_add_assoc(s0, acc, i16_bytes(self@.num_frames));
            acc = acc + i16_bytes(self@.num_frames);
        }
        put_i16_le(output, self.num_pause_frames);
        proof {
            lemma_add_assoc(s0, acc, i16_bytes(self@.num_pause_frames));
            acc = acc + i16_bytes(self@.num_pause_frames);
        }
        put_u32_le(output, self.frame_interval);
        proof {
            lemma_add_assoc(s0, acc, u32_bytes(self@.frame_interval));
            acc = acc + u32_bytes(self@.frame_interval);
        }
        put_u32_le(output, self.replay_delay);
        proof {
            lemma_add_assoc(s0, acc, u32_bytes(self@.replay_delay));
            acc = acc + u32_bytes(self@.replay_delay);
        }
        put_i16_le(output, self.frame);
        proof {
            lemma_add_assoc(s0, acc, i16_bytes(self@.frame));
            acc = acc + i16_bytes(self@.frame);
        }
        put_i16_le(output, self.draw_frame);
        proof {
            lemma_add_assoc(s0, acc, i16_bytes(self@.draw_frame));
            acc = acc + i16_bytes(self@.draw_frame);
        }
        assert(acc == terrain_animation_bytes_1(self@));
    }

    fn write_part_2(&self, output: &mut Vec<u8>)
        requires
            terrain_animation_writable(self@),
        ensures
            final(output)@ == old(output)@ + terrain_animation_bytes_2(self@),
    {
        let ghost s0 = output@;
        put_u32_le(output, self.animate_last);
        let ghost mut acc = u32_bytes(self@.animate_last);
        assert(output@ == s0 + acc);
        put_flag(output, self.frame_changed);
        proof {
            lemma_add_assoc(s0, acc, flag_bytes(self@.frame_changed));
            acc = acc + flag_bytes(self@.frame_changed);
        }
        put_flag(output, self.drawn);
        proof {
            lemma_add_assoc(s0, acc, flag_bytes(self@.drawn));
            acc = acc + flag_bytes(self@.drawn);
        }
        assert(acc == terrain_animation_bytes_2(self@));
    }

    /// Append this terrain animation to `output`.
    pub fn write_to(&self, output: &mut Vec<u8>)
        requires
            terrain_animation_writable(self@),
        ensures
            final(output)@ == old(output)@ + terrain_animation_bytes(self@),
    {
        self.write_part_1(output);
        self.write_part_2(output);
        assert(output@ =~= old(output)@ + terrain_animation_bytes(self@));
    }
}

/// A terrain animation that is written reads back unchanged, wherever it stands.
pub proof fn law_terrain_animation_read_of_write(prefix: Seq<u8>, v: TerrainAnimationView, suffix: Seq<u8>)
    requires
        terrain_animation_exact(v),
    ensures
        terrain_animation_bytes(v).len() == 23,
        terrain_animation_at(prefix + terrain_animation_bytes(v) + suffix, prefix.len() as int) == v,
{
    lemma_field_lens();
    lemma_pow256_values();
    assert(flag_bytes(v.enabled).len() == 1);
    assert(flag_bytes(v.frame_changed).len() == 1);
    assert(flag_bytes(v.drawn).len() == 1);
    let data = prefix + terrain_animation_bytes(v) + suffix;
    let p = prefix.len() as int;
    assert((prefix) + terrain_animation_bytes_1(v) + (terrain_animation_bytes_2(v) + suffix) =~= data);
    lemma_terrain_animation_part_1(prefix, v, terrain_animation_bytes_2(v) + suffix);
    assert((prefix + terrain_animation_bytes_1(v)) + terrain_animation_bytes_2(v) + (suffix) =~= data);
    lemma_terrain_animation_part_2(prefix + terrain_animation_bytes_1(v), v, suffix);
}

/// The fields of part 1 of the bytes of a TerrainAnimationView stand at their offsets.
pub open spec fn terrain_animation_part_1_holds(data: Seq<u8>, p: int, v: TerrainAnimationView) -> bool {
    &&& flag_at(data, p) == v.enabled
    &&& i16_at(data, p + 1) == v.num_frames
    &&& i16_at(data, p + 3) == v.num_pause_frames
    &&& u32_at(data, p + 5) == v.frame_interval
    &&& u32_at(data, p + 9) == v.replay_delay
    &&& i16_at(data, p + 13) == v.frame
    &&& i16_at(data, p + 15) == v.draw_frame
}

proof fn lemma_terrain_animation_part_1(prefix: Seq<u8>, v: TerrainAnimationView, suffix: Seq<u8>)
    requires
        terrain_animation_exact(v),
    ensures
        terrain_animation_bytes_1(v).len() == 17,
        terrain_animation_part_1_holds(prefix + terrain_animation_bytes_1(v) + suffix, prefix.len() as int, v),
{
    lemma_field_lens();
    lemma_pow256_values();
    assert(flag_bytes(v.enabled).len() == 1);
    let data = prefix + terrain_animation_bytes_1(v) + suffix;
    let p = prefix.len() as int;
    assert(data.subrange(p, p + 1) =~= flag_bytes(v.enabled));
    lemma_flag_field(data, p, v.enabled);
    assert(data.subrange(p + 1, p + 3) =~= i16_bytes(v.num_frames));
    lemma_i16_field(data, p + 1, v.num_frames);
    assert(data.subrange(p + 3, p + 5) =~= i16_bytes(v.num_pause_frames));
    lemma_i16_field(data, p + 3, v.num_pause_frames);
    assert(data.subrange(p + 5, p + 9) =~= u32_bytes(v.frame_interval));
    lemma_u32_field(data, p + 5, v.frame_interval);
    assert(data.subrange(p + 9, p + 13) =~= u32_bytes(v.replay_delay));
    lemma_u32_field(data, p + 9, v.replay_delay);
    assert(data.subrange(p + 13, p + 15) =~= i16_bytes(v.frame));
    lemma_i16_field(data, p + 13, v.frame);
    assert(data.subrange(p + 15, p + 17) =~= i16_bytes(v.draw_frame));
    lemma_i16_field(data, p + 15, v.draw_frame);
}

/// The fields of part 2 of the bytes of a TerrainAnimationView stand at their offsets.
pub open spec fn terrain_animation_part_2_holds(data: Seq<u8>, p: int, v: TerrainAnimationView) -> bool {
    &&& u32_at(data, p) == v.animate_last
    &&& flag_at(data, p + 4) == v.frame_changed
    &&& flag_at(data, p + 5) == v.drawn
}

proof fn lemma_terrain_animation_part_2(prefix: Seq<u8>, v: TerrainAnimationView, suffix: Seq<u8>)
    requires
        terrain_animation_exact(v),
    ensures
        terrain_animation_bytes_2(v).len() == 6,
        terrain_animation_part_2_holds(prefix + terrain_animation_bytes_2(v) + suffix, prefix.len() as int, v),
{
    lemma_field_lens();
    lemma_pow256_values();
    assert(flag_bytes(v.frame_changed).len() == 1);
    assert(flag_bytes(v.drawn).len() == 1);
    let data = prefix + terrain_animation_bytes_2(v) + suffix;
    let p = prefix.len() as int;
    assert(data.subrange(p, p + 4) =~= u32_bytes(v.animate_last));
    lemma_u32_field(data, p, v.animate_last);
    assert(data.subrange(p + 4, p + 5) =~= flag_bytes(v.frame_changed));
    lemma_flag_field(data, p + 4, v.frame_changed);
    assert(data.subrange(p + 5, p + 6) =~= flag_bytes(v.drawn));
    lemma_flag_field(data, p + 5, v.drawn);
}

/// The fields of a pass graphic sprites as values.
pub ghost struct PassSpritesView {
    pub exit_tile_sprite: Option<u16>,
    pub enter_tile_sprite: Option<u16>,
    pub walk_tile_sprite: Option<u16>,
}

/// The pass graphic sprites stored at `pos`.
pub open spec fn pass_sprites_at(data: Seq<u8>, pos: int) -> PassSpritesView {
    PassSpritesView {
        exit_tile_sprite: opt32_id_at(data, pos),
        enter_tile_sprite: opt32_id_at(data, pos + 4),
        walk_tile_sprite: opt32_id_at(data, pos + 8),
    }
}

/// The 12 bytes the sprites of a pass graphic are stored as.
pub open spec fn pass_sprites_bytes(v: PassSpritesView) -> Seq<u8> {
    opt_u32_bytes(id32_of(v.exit_tile_sprite))
        + opt_u32_bytes(id32_of(v.enter_tile_sprite))
        + opt_u32_bytes(id32_of(v.walk_tile_sprite))
}

/// The values that can be written: IDs that the game writes as signed numbers fit.
pub open spec fn pass_sprites_writable(v: PassSpritesView) -> bool {
    true
}

/// The 32-bit IDs stored at `pos` fit in 16 bits, as far as the input goes.
pub open spec fn pass_sprites_readable(data: Seq<u8>, pos: int) -> bool {
    opt32_id_readable(data, pos)
    && opt32_id_readable(data, pos + 4)
    && opt32_id_readable(data, pos + 8)
}

/// The values that read back as written: IDs fit, and none is `0xFFFF`.
pub open spec fn pass_sprites_exact(v: PassSpritesView) -> bool {
    true
}

/// The sprites of a pass graphic read back as written, wherever they stand.
pub proof fn law_pass_sprites_read_of_write(prefix: Seq<u8>, v: PassSpritesView, suffix: Seq<u8>)
    requires
        pass_sprites_exact(v),
    ensures
        pass_sprites_bytes(v).len() == 12,
        pass_sprites_at(prefix + pass_sprites_bytes(v) + suffix, prefix.len() as int) == v,
        pass_sprites_readable(prefix + pass_sprites_bytes(v) + suffix, prefix.len() as int),
{
    lemma_field_lens();
    lemma_pow256_values();
    assert(opt_u32_bytes(id32_of(v.exit_tile_sprite)).len() == 4);
    assert(opt_u32_bytes(id32_of(v.enter_tile_sprite)).len() == 4);
    assert(opt_u32_bytes(id32_of(v.walk_tile_sprite)).len() == 4);
    let data = prefix + pass_sprites_bytes(v) + suffix;
    let p = prefix.len() as int;
    assert(data.subrange(p, p + 4) =~= opt_u32_bytes(id32_of(v.exit_tile_sprite)));
    lemma_opt32_id_field(data, p, v.exit_tile_sprite);
    assert(data.subrange(p + 4, p + 8) =~= opt_u32_bytes(id32_of(v.enter_tile_sprite)));
    lemma_opt32_id_field(data, p + 4, v.enter_tile_sprite);
    assert(data.subrange(p + 8, p + 12) =~= opt_u32_bytes(id32_of(v.walk_tile_sprite)));
    lemma_opt32_id_field(data, p + 8, v.walk_tile_sprite);
}

/// The sprites drawn while a unit enters, exits and walks a terrain, and how often the
/// walking sprite is repeated. The walk rate (the bit pattern of an `f32`) is only stored
/// by Star Wars: Galactic Battlegrounds, whose files are not supported.
#[derive(Debug, Default, Clone)]
pub struct TerrainPassGraphic {
    exit_tile_sprite: Option<SpriteID>,
    enter_tile_sprite: Option<SpriteID>,
    walk_tile_sprite: Option<SpriteID>,
    walk_rate: Option<u32>,
    replication_amount: Option<i32>,
}

/// The values of a pass graphic.
pub ghost struct PassGraphicView {
    pub sprites: PassSpritesView,
    pub walk_rate: Option<u32>,
    pub replication_amount: Option<i32>,
}

impl View for TerrainPassGraphic {
    type V = PassGraphicView;

    closed spec fn view(&self) -> PassGraphicView {
        PassGraphicView {
            sprites: PassSpritesView {
                exit_tile_sprite: opt_sprite(self.exit_tile_sprite),
                enter_tile_sprite: opt_sprite(self.enter_tile_sprite),
                walk_tile_sprite: opt_sprite(self.walk_tile_sprite),
            },
            walk_rate: self.walk_rate,
            replication_amount: self.replication_amount,
        }
    }
}

/// The pass graphic stored at `pos`: three sprites (`-1` for none), and the replication
/// amount.
pub open spec fn pass_graphic_at(data: Seq<u8>, pos: int) -> PassGraphicView {
    PassGraphicView {
        sprites: pass_sprites_at(data, pos),
        walk_rate: None,
        replication_amount: Some(i32_at(data, pos + 12)),
    }
}

/// The 16 bytes a pass graphic is stored as: the sprites, and the replication amount (`-1`
/// for none).
pub open spec fn pass_graphic_bytes(v: PassGraphicView) -> Seq<u8> {
    pass_sprites_bytes(v.sprites) + i32_bytes(
        match v.replication_amount {
            Some(n) => n,
            None => -1i32,
        },
    )
}

impl TerrainPassGraphic {
    /// Read a pass graphic at `pos` in a data file of the given version; returns it and
    /// the position after it.
    pub fn from(input: &[u8], pos: usize, version: FileVersion) -> (r: Result<(Self, usize), ReadError>)
        requires
            pass_sprites_readable(input@, pos as int),
        ensures
            r is Ok <==> pos + 16 <= input.len(),
            r matches Ok((x, q)) ==> x@ == pass_graphic_at(input@, pos as int) && q == pos + 16,
            r matches Err(e) ==> e == ReadError::UnexpectedEof,
    {
        let p = pos;
        let (exit_tile_sprite, p) = read_opt_id32(input, p)?;
        let exit_tile_sprite = sprite_from_opt(exit_tile_sprite);
        let (enter_tile_sprite, p) = read_opt_id32(input, p)?;
        let enter_tile_sprite = sprite_from_opt(enter_tile_sprite);
        let (walk_tile_sprite, p) = read_opt_id32(input, p)?;
        let walk_tile_sprite = sprite_from_opt(walk_tile_sprite);
        let (walk_rate, replication_amount, p) = if version.is_swgb() {
            let (w, p) = read_u32_le(input, p)?;
            (Some(w), None, p)
        } else {
            let (n, p) = read_i32_le(input, p)?;
            (None, Some(n), p)
        };
        Ok((TerrainPassGraphic { exit_tile_sprite, enter_tile_sprite, walk_tile_sprite, walk_rate, replication_amount }, p))
    }

    /// Append this pass graphic to `output` for a data file of the given version.
    pub fn write_to(&self, output: &mut Vec<u8>, version: FileVersion)
        ensures
            final(output)@ == old(output)@ + pass_graphic_bytes(self@),
    {
        self.write_pass_sprites(output);
        if version.is_swgb() {
            let w: u32 = match self.walk_rate {
                Some(w) => w,
                None => 0,
            };
            put_u32_le(output, w);
        } else {
            let n: i32 = match self.replication_amount {
                Some(n) => n,
                None => -1,
            };
            put_i32_le(output, n);
        }
        assert(output@ =~= old(output)@ + pass_graphic_bytes(self@));
    }

    fn write_pass_sprites(&self, output: &mut Vec<u8>)
        requires
            pass_sprites_writable(self@.sprites),
        ensures
            final(output)@ == old(output)@ + pass_sprites_bytes(self@.sprites),
    {
        let ghost s0 = output@;
        put_opt_id32(output, sprite_to_opt(self.exit_tile_sprite));
        let ghost mut acc = opt_u32_bytes(id32_of(self@.sprites.exit_tile_sprite));
        assert(output@ == s0 + acc);
        put_opt_id32(output, sprite_to_opt(self.enter_tile_sprite));
        proof {
            lemma_add_assoc(s0, acc, opt_u32_bytes(id32_of(self@.sprites.enter_tile_sprite)));
            acc = acc + opt_u32_bytes(id32_of(self@.sprites.enter_tile_sprite));
        }
        put_opt_id32(output, sprite_to_opt(self.walk_tile_sprite));
        proof {
            lemma_add_assoc(s0, acc, opt_u32_bytes(id32_of(self@.sprites.walk_tile_sprite)));
            acc = acc + opt_u32_bytes(id32_of(self@.sprites.walk_tile_sprite));
        }
        assert(acc == pass_sprites_bytes(self@.sprites));
    }

}

/// The bytes of a list of `f32` bit patterns.
pub open spec fn f32s_bytes(s: Seq<u32>) -> Seq<u8>
    decreases s.len(),
{
    if s.len() == 0 {
        Seq::empty()
    } else {
        f32s_bytes(s.drop_last()) + u32_bytes(s.last())
    }
}

/// The bytes of a list of pass graphics.
pub open spec fn pass_graphics_bytes(s: Seq<PassGraphicView>) -> Seq<u8>
    decreases s.len(),
{
    if s.len() == 0 {
        Seq::empty()
    } else {
        pass_graphics_bytes(s.drop_last()) + pass_graphic_bytes(s.last())
    }
}

/// A table of how units of a terrain restriction cross each terrain: a passability (the bit
/// pattern of an `f32`) and a pass graphic per terrain.
#[derive(Debug, Clone)]
pub struct TerrainRestriction {
    passability: Vec<u32>,
    pass_graphics: Vec<TerrainPassGraphic>,
}

impl View for TerrainRestriction {
    type V = (Seq<u32>, Seq<PassGraphicView>);

    closed spec fn view(&self) -> (Seq<u32>, Seq<PassGraphicView>) {
        (self.passability@, self.pass_graphics@.map_values(|g: TerrainPassGraphic| g@))
    }
}

/// The terrain restriction stored at `pos` for `n` terrains: the passabilities, then the
/// pass graphics; and the position after it.
pub open spec fn terrain_restriction_at(data: Seq<u8>, pos: int, n: nat) -> Option<((Seq<u32>, Seq<PassGraphicView>), int)> {
    if pos + 20 * n > data.len() {
        None
    } else {
        Some(
            (
                (
                    Seq::new(n, |i: int| u32_at(data, pos + 4 * i)),
                    Seq::new(n, |i: int| pass_graphic_at(data, pos + 4 * n + 16 * i)),
                ),
                pos + 20 * n,
            ),
        )
    }
}

/// The 32-bit sprite IDs of the pass graphics of the restriction at `pos` fit in 16 bits.
pub open spec fn terrain_restriction_readable(data: Seq<u8>, pos: int, n: nat) -> bool {
    forall|i: int| 0 <= i < n ==> #[trigger] pass_sprites_readable(data, pos + 4 * n + 16 * i)
}

/// Reads `n` bit patterns of `f32`s at `pos`.
fn read_f32s(input: &[u8], pos: usize, n: u16) -> (r: Result<(Vec<u32>, usize), ReadError>)
    requires
        pos <= input.len(),
    ensures
        r is Ok <==> pos + 4 * n <= input.len(),
        r matches Ok((v, p)) ==> v@ == Seq::new(n as nat, |i: int| u32_at(input@, pos + 4 * i)) && p
            == pos + 4 * n,
        r matches Err(e) ==> e == ReadError::UnexpectedEof,
{
    let mut v: Vec<u32> = Vec::new();
    let mut p = pos;
    let mut i: u16 = 0;
    while i < n
        invariant
            i <= n,
            p == pos + 4 * i,
            p <= input.len(),
            v@ == Seq::new(i as nat, |j: int| u32_at(input@, pos + 4 * j)),
        decreases n - i,
    {
        let (x, q) = read_u32_le(input, p)?;
        v.push(x);
        assert(v@ =~= Seq::new((i + 1) as nat, |j: int| u32_at(input@, pos + 4 * j)));
        p = q;
        i = i + 1;
    }
    Ok((v, p))
}

/// Reads `n` pass graphics at `pos`.
fn read_pass_graphics(input: &[u8], pos: usize, n: u16, version: FileVersion) -> (r: Result<(Vec<TerrainPassGraphic>, usize), ReadError>)
    requires
        pos <= input.len(),
        forall|i: int| 0 <= i < n ==> #[trigger] pass_sprites_readable(input@, pos + 16 * i),
    ensures
        r is Ok <==> pos + 16 * n <= input.len(),
        r matches Ok((v, p)) ==> v@.map_values(|g: TerrainPassGraphic| g@) == Seq::new(
            n as nat,
            |i: int| pass_graphic_at(input@, pos + 16 * i),
        ) && p == pos + 16 * n,
        r matches Err(e) ==> e == ReadError::UnexpectedEof,
{
    let mut v: Vec<TerrainPassGraphic> = Vec::new();
    let mut p = pos;
    let mut i: u16 = 0;
    while i < n
        invariant
            i <= n,
            p == pos + 16 * i,
            p <= input.len(),
            forall|j: int| 0 <= j < n ==> #[trigger] pass_sprites_readable(input@, pos + 16 * j),
            v@.len() == i,
            forall|j: int| 0 <= j < i ==> #[trigger] v@[j]@ == pass_graphic_at(input@, pos + 16 * j),
        decreases n - i,
    {
        assert(pass_sprites_readable(input@, pos + 16 * (i as int)));
        let (g, q) = TerrainPassGraphic::from(input, p, version)?;
        v.push(g);
        p = q;
        i = i + 1;
    }
    assert(v@.map_values(|g: TerrainPassGraphic| g@) =~= Seq::new(
        n as nat,
        |j: int| pass_graphic_at(input@, pos + 16 * j),
    ));
    Ok((v, p))
}

impl TerrainRestriction {
    /// Read a terrain restriction for `num_terrains` terrains at `pos`; returns it and the
    /// position after it.
    pub fn from(input: &[u8], pos: usize, version: FileVersion, num_terrains: u16) -> (r: Result<(Self, usize), ReadError>)
        requires
            pos <= input.len(),
            terrain_restriction_readable(input@, pos as int, num_terrains as nat),
        ensures
            match terrain_restriction_at(input@, pos as int, num_terrains as nat) {
                Some((v, q)) => r matches Ok((t, p)) && t@ == v && p == q,
                None => r == Err::<(Self, usize), ReadError>(ReadError::UnexpectedEof),
            },
    {
        let (passability, p) = read_f32s(input, pos, num_terrains)?;
        proof {
            assert forall|i: int| 0 <= i < num_terrains implies #[trigger] pass_sprites_readable(
                input@,
                p + 16 * i,
            ) by {
                assert(pass_sprites_readable(input@, pos + 4 * num_terrains + 16 * i));
            }
        }
        let (pass_graphics, p) = read_pass_graphics(input, p, num_terrains, version)?;
        Ok((TerrainRestriction { passability, pass_graphics }, p))
    }

    /// Append this terrain restriction to `output`; it must have an entry per terrain (else
    /// writing panics).
    pub fn write_to(&self, output: &mut Vec<u8>, version: FileVersion, num_terrains: u16)
        requires
            self@.0.len() == num_terrains,
            self@.1.len() == num_terrains,
        ensures
            final(output)@ == old(output)@ + f32s_bytes(self@.0) + pass_graphics_bytes(self@.1),
    {
        let ghost s0 = output@;
        let mut i: usize = 0;
        assert(self@.0.take(0) =~= Seq::<u32>::empty());
        while i < self.passability.len()
            invariant
                i <= self.passability.len(),
                output@ == s0 + f32s_bytes(self@.0.take(i as int)),
            decreases self.passability.len() - i,
        {
            put_u32_le(output, self.passability[i]);
            assert(self@.0.take(i + 1).drop_last() =~= self@.0.take(i as int));
            i = i + 1;
        }
        assert(self@.0.take(self.passability.len() as int) =~= self@.0);
        let ghost s1 = output@;
        let ghost g = self@.1;
        assert(g.take(0) =~= Seq::<PassGraphicView>::empty());
        let mut k: usize = 0;
        while k < self.pass_graphics.len()
            invariant
                k <= self.pass_graphics.len(),
                g == self@.1,
                output@ == s1 + pass_graphics_bytes(g.take(k as int)),
            decreases self.pass_graphics.len() - k,
        {
            self.pass_graphics[k].write_to(output, version);
            assert(g.take(k + 1).drop_last() =~= g.take(k as int));
            assert(g.take(k + 1).last() == self.pass_graphics@[k as int]@);
            k = k + 1;
        }
        assert(g.take(self.pass_graphics.len() as int) =~= g);
        assert(output@ =~= old(output)@ + f32s_bytes(self@.0) + pass_graphics_bytes(self@.1));
    }
}

} // verus!
