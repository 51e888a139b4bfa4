//! Map data stored in recorded games: tiles and visibility.
use crate::codec::{
    lemma_field_lens, lemma_u32_field, put_u32_le, read_u32_le, read_u8, u32_at, u32_bytes,
    ReadError,
};
use crate::rec::actions::skip;
use crate::rec::version::{f32_bits_at_least, GameVariant};
use vstd::prelude::*;

verus! {

/// Save version 13.03, as the bit pattern of an `f32`.
pub const VERSION_13_03: u32 = 0x4150_7ae1;

/// Data about a map tile.
#[derive(Debug, Default, Clone, Copy)]
pub struct Tile {
    /// The terrain type of this tile.
    pub terrain: u8,
    /// The elevation level of this tile.
    pub elevation: u8,
    /// The original terrain type of this tile, if it was later replaced, for example by
    /// placing a Farm. UserPatch 1.5 only.
    pub original_terrain: Option<u8>,
}

/// The tile stored at `p` by a game of the given variant and save version (the bit pattern
/// of an `f32`), and the position after it. Definitive Edition stores a terrain, a byte,
/// the elevation and four more bytes (and two more from 13.03 on); other games store the
/// terrain and the elevation, or `0xFF`, the terrain, the elevation and the original
/// terrain.
pub open spec fn tile_at(d: Seq<u8>, p: int, de: bool, version: u32) -> Option<((u8, u8, Option<u8>), int)> {
    if de {
        let n: int = if f32_bits_at_least(version, VERSION_13_03) {
            9
        } else {
            7
        };
        if p + n <= d.len() {
            Some(((d[p], d[p + 2], None), p + n))
        } else {
            None
        }
    } else if p + 1 <= d.len() && d[p] == 0xFF {
        if p + 4 <= d.len() {
            Some(((d[p + 1], d[p + 2], Some(d[p + 3])), p + 4))
        } else {
            None
        }
    } else if p + 2 <= d.len() {
        Some(((d[p], d[p + 1], None), p + 2))
    } else {
        None
    }
}

/// The bytes a tile is written as.
pub open spec fn tile_bytes(t: (u8, u8, Option<u8>)) -> Seq<u8> {
    match t.2 {
        Some(o) => seq![0xFFu8, t.0, t.1, o],
        None => seq![t.0, t.1],
    }
}

impl Tile {
    /// Read a tile at `pos`, stored by a game of the given variant and save version (the
    /// bit pattern of an `f32`).
    pub fn read_from(input: &[u8], pos: usize, variant: GameVariant, version: u32) -> (r: Result<(Self, usize), ReadError>)
        ensures
            match tile_at(input@, pos as int, variant == GameVariant::DefinitiveEdition, version) {
                Some((t, q)) => r matches Ok((x, p)) && (x.terrain, x.elevation, x.original_terrain)
                    == t && p == q,
                None => r == Err::<(Self, usize), ReadError>(ReadError::UnexpectedEof),
            },
    {
        let (terrain, p) = read_u8(input, pos)?;
        if variant >= GameVariant::DefinitiveEdition {
            let p = skip(input, p, 1)?;
            let (elevation, p) = read_u8(input, p)?;
            let p = skip(input, p, 4)?;
            let p = if VERSION_13_03 <= version && version <= 0x7f80_0000 {
                skip(input, p, 2)?
            } else {
                p
            };
            return Ok((Tile { terrain, elevation, original_terrain: None }, p));
        }
        if terrain == 0xFF {
            let (terrain, p) = read_u8(input, p)?;
            let (elevation, p) = read_u8(input, p)?;
            let (original, p) = read_u8(input, p)?;
            Ok((Tile { terrain, elevation, original_terrain: Some(original) }, p))
        } else {
            let (elevation, p) = read_u8(input, p)?;
            Ok((Tile { terrain, elevation, original_terrain: None }, p))
        }
    }

    /// Append this tile to `output`.
    pub fn write_to(&self, output: &mut Vec<u8>)
        ensures
            final(output)@ == old(output)@ + tile_bytes(
                (self.terrain, self.elevation, self.original_terrain),
            ),
    {
        match self.original_terrain {
            Some(t) => {
                output.push(0xFF);
                output.push(self.terrain);
                output.push(self.elevation);
                output.push(t);
            },
            None => {
                output.push(self.terrain);
                output.push(self.elevation);
            },
        }
        assert(output@ =~= old(output)@ + tile_bytes(
            (self.terrain, self.elevation, self.original_terrain),
        ));
    }
}

/// A tile written by a game other than Definitive Edition reads back unchanged, unless its
/// terrain is `0xFF` without an original terrain, which reads as the marker of one.
pub proof fn law_tile_read_of_write(pre: Seq<u8>, t: (u8, u8, Option<u8>), version: u32, post: Seq<u8>)
    requires
        t.2 is Some || t.0 != 0xFF,
    ensures
        tile_at(pre + tile_bytes(t) + post, pre.len() as int, false, version) == Some(
            (t, pre.len() + tile_bytes(t).len() as int),
        ),
{
    let d = pre + tile_bytes(t) + post;
    let p = pre.len() as int;
    assert(d[p] == tile_bytes(t)[0]);
    assert(d[p + 1] == tile_bytes(t)[1]);
    if t.2 is Some {
        assert(d[p + 2] == tile_bytes(t)[2]);
        assert(d[p + 3] == tile_bytes(t)[3]);
    }
}

/// The visibility map of the players.
#[derive(Debug, Default, Clone)]
pub struct VisibilityMap {
    /// Width of the visibility map.
    pub width: u32,
    /// Height of the visibility map.
    pub height: u32,
    /// Visibility flags for each tile.
    pub visibility: Vec<u32>,
}

/// The number of tiles of the visibility map stored at `p`.
pub open spec fn visibility_cells(d: Seq<u8>, p: int) -> int {
    u32_at(d, p) * u32_at(d, p + 4)
}

/// Whether the number of tiles of the visibility map at `p` fits in a `u32`; computing a
/// larger one panics.
pub open spec fn visibility_readable(d: Seq<u8>, p: int) -> bool {
    p + 8 <= d.len() ==> visibility_cells(d, p) <= u32::MAX
}

/// The bytes of a list of `u32` values.
pub open spec fn flags_bytes(s: Seq<u32>) -> Seq<u8>
    decreases s.len(),
{
    if s.len() == 0 {
        Seq::empty()
    } else {
        flags_bytes(s.drop_last()) + u32_bytes(s.last())
    }
}

/// The bytes a visibility map is written as: width, height, then the flags.
pub open spec fn visibility_bytes(width: u32, height: u32, flags: Seq<u32>) -> Seq<u8> {
    u32_bytes(width) + u32_bytes(height) + flags_bytes(flags)
}

impl VisibilityMap {
    /// Read a visibility map at `pos`: width, height, then a `u32` for each tile.
    pub fn read_from(input: &[u8], pos: usize) -> (r: Result<(Self, usize), ReadError>)
        requires
            visibility_readable(input@, pos as int),
        ensures
            r is Ok <==> pos + 8 <= input.len() && pos + 8 + 4 * visibility_cells(input@, pos as int)
                <= input.len(),
            r matches Ok((m, p)) ==> {
                let n = visibility_cells(input@, pos as int);
                &&& m.width == u32_at(input@, pos as int)
                &&& m.height == u32_at(input@, pos + 4)
                &&& m.visibility@ == Seq::new(n as nat, |i: int| u32_at(input@, pos + 8 + 4 * i))
                &&& p == pos + 8 + 4 * n
            },
            r matches Err(e) ==> e == ReadError::UnexpectedEof,
    {
        let (width, p) = read_u32_le(input, pos)?;
        let (height, p) = read_u32_le(input, p)?;
        let n = width * height;
        let mut visibility: Vec<u32> = Vec::new();
        let mut q = p;
        let mut i: u32 = 0;
        while i < n
            invariant
                i <= n,
                n as int == visibility_cells(input@, pos as int),
                p == pos + 8,
                p <= input.len(),
                q == p + 4 * i,
                i > 0 ==> q <= input.len(),
                visibility@ == Seq::new(i as nat, |k: int| u32_at(input@, pos + 8 + 4 * k)),
            decreases n - i,
        {
            let (v, q2) = read_u32_le(input, q)?;
            visibility.push(v);
            assert(visibility@ =~= Seq::new((i + 1) as nat, |k: int| u32_at(input@, pos + 8 + 4 * k)));
            q = q2;
            i = i + 1;
        }
        Ok((VisibilityMap { width, height, visibility }, q))
    }

    /// Append this visibility map to `output`.
    pub fn write_to(&self, output: &mut Vec<u8>)
        ensures
            final(output)@ == old(output)@ + visibility_bytes(
                self.width,
                self.height,
                self.visibility@,
            ),
    {
        put_u32_le(output, self.width);
        put_u32_le(output, self.height);
        let ghost head = output@;
        let ghost s = self.visibility@;
        let mut i: usize = 0;
        assert(s.take(0) =~= Seq::<u32>::empty());
        while i < self.visibility.len()
            invariant
                i <= self.visibility.len(),
                s == self.visibility@,
                output@ == head + flags_bytes(s.take(i as int)),
            decreases self.visibility.len() - i,
        {
            put_u32_le(output, self.visibility[i]);
            proof {
                assert(s.take(i + 1).drop_last() =~= s.take(i as int));
            }
            i = i + 1;
            assert(output@ =~= head + flags_bytes(s.take(i as int)));
        }
        assert(s.take(s.len() as int) =~= s);
        assert(output@ =~= old(output)@ + visibility_bytes(self.width, self.height, s));
    }
}

proof fn lemma_flags_read(s: Seq<u32>, d: Seq<u8>, q: int)
    requires
        0 <= q,
        q + 4 * s.len() <= d.len(),
        d.subrange(q, q + 4 * s.len()) == flags_bytes(s),
    ensures
        forall|i: int| 0 <= i < s.len() ==> #[trigger] u32_at(d, q + 4 * i) == s[i],
    decreases s.len(),
{
    lemma_field_lens();
    if s.len() > 0 {
        let k = s.len() - 1;
        let s0 = s.drop_last();
        lemma_flags_len(s0);
        assert(d.subrange(q, q + 4 * k) =~= flags_bytes(s).subrange(0, 4 * k));
        assert(flags_bytes(s).subrange(0, 4 * k) =~= flags_bytes(s0));
        lemma_flags_read(s0, d, q);
        assert(d.subrange(q + 4 * k, q + 4 * k + 4) =~= flags_bytes(s).subrange(4 * k, 4 * k + 4));
        assert(flags_bytes(s).subrange(4 * k, 4 * k + 4) =~= u32_bytes(s[k]));
        lemma_u32_field(d, q + 4 * k, s[k]);
        assert forall|i: int| 0 <= i < s.len() implies #[trigger] u32_at(d, q + 4 * i) == s[i] by {
            if i < k {
                assert(u32_at(d, q + 4 * i) == s0[i]);
            }
        }
    }
}

proof fn lemma_flags_len(s: Seq<u32>)
    ensures
        flags_bytes(s).len() == 4 * s.len(),
    decreases s.len(),
{
    lemma_field_lens();
    if s.len() > 0 {
        lemma_flags_len(s.drop_last());
    }
}

/// A visibility map with one flag per tile that is written reads back unchanged, if its
/// number of tiles fits in a `u32` (reading a larger one panics).
pub proof fn law_visibility_read_of_write(pre: Seq<u8>, width: u32, height: u32, flags: Seq<u32>, post: Seq<u8>)
    requires
        flags.len() == width * height,
        width * height <= u32::MAX,
    ensures
        visibility_readable(pre + visibility_bytes(width, height, flags) + post, pre.len() as int),
        ({
            let d = pre + visibility_bytes(width, height, flags) + post;
            let p = pre.len() as int;
            &&& u32_at(d, p) == width
            &&& u32_at(d, p + 4) == height
            &&& Seq::new(visibility_cells(d, p) as nat, |i: int| u32_at(d, p + 8 + 4 * i)) == flags
        }),
{
    lemma_field_lens();
    lemma_flags_len(flags);
    let d = pre + visibility_bytes(width, height, flags) + post;
    let p = pre.len() as int;
    assert(d.subrange(p, p + 4) =~= u32_bytes(width));
    assert(d.subrange(p + 4, p + 8) =~= u32_bytes(height));
    lemma_u32_field(d, p, width);
    lemma_u32_field(d, p + 4, height);
    assert(d.subrange(p + 8, p + 8 + 4 * flags.len()) =~= flags_bytes(flags));
    lemma_flags_read(flags, d, p + 8);
    let r = Seq::new(visibility_cells(d, p) as nat, |i: int| u32_at(d, p + 8 + 4 * i));
    assert forall|i: int| 0 <= i < flags.len() implies r[i] == flags[i] by {
        assert(u32_at(d, (p + 8) + 4 * i) == flags[i]);
    }
    assert(r =~= flags);
}

} // verus!
