//! Terrain records of a data file: tile sizes, sprite frames and terrain objects.
use crate::codec::{
    i16_at, i16_bytes, lemma_field_lens, lemma_i16_field, read_i16_le, put_i16_le, ReadError,
};
use crate::dat::ids::UnitTypeID;
use vstd::prelude::*;

verus! {

/// The size of a tile.
#[derive(Debug, Default, Clone)]
pub struct TileSize {
    pub width: i16,
    pub height: i16,
    pub delta_z: i16,
}

/// The three `i16` fields stored at `pos` (a tile size or a sprite frame).
pub open spec fn i16_triple_at(data: Seq<u8>, pos: int) -> (i16, i16, i16) {
    (i16_at(data, pos), i16_at(data, pos + 2), i16_at(data, pos + 4))
}

/// The bytes that three `i16` fields are stored as.
pub open spec fn i16_triple_bytes(t: (i16, i16, i16)) -> Seq<u8> {
    i16_bytes(t.0) + i16_bytes(t.1) + i16_bytes(t.2)
}

impl View for TileSize {
    type V = (i16, i16, i16);

    open spec fn view(&self) -> (i16, i16, i16) {
        (self.width, self.height, self.delta_z)
    }
}

impl TileSize {
    /// Read a tile size at `pos`; returns it and the position after it.
    pub fn from(input: &[u8], pos: usize) -> (r: Result<(Self, usize), ReadError>)
        ensures
            r is Ok <==> pos + 6 <= input.len(),
            r matches Ok((t, p)) ==> t@ == i16_triple_at(input@, pos as int) && p == pos + 6,
            r matches Err(e) ==> e == ReadError::UnexpectedEof,
    {
        let (width, p) = read_i16_le(input, pos)?;
        let (height, p) = read_i16_le(input, p)?;
        let (delta_z, p) = read_i16_le(input, p)?;
        Ok((TileSize { width, height, delta_z }, p))
    }

    /// Append this tile size to `output`.
    pub fn write_to(&self, output: &mut Vec<u8>)
        ensures
            final(output)@ == old(output)@ + i16_triple_bytes(self@),
    {
        put_i16_le(output, self.width);
        put_i16_le(output, self.height);
        put_i16_le(output, self.delta_z);
        assert(output@ =~= old(output)@ + i16_triple_bytes(self@));
    }
}

/// A tile size or a sprite frame that is written reads back unchanged, wherever it stands.
pub proof fn law_i16_triple_read_of_write(prefix: Seq<u8>, t: (i16, i16, i16), suffix: Seq<u8>)
    ensures
        i16_triple_bytes(t).len() == 6,
        i16_triple_at(prefix + i16_triple_bytes(t) + suffix, prefix.len() as int) == t,
{
    lemma_field_lens();
    let d = prefix + i16_triple_bytes(t) + suffix;
    let p = prefix.len() as int;
    assert(d.subrange(p, p + 2) =~= i16_bytes(t.0));
    assert(d.subrange(p + 2, p + 4) =~= i16_bytes(t.1));
    assert(d.subrange(p + 4, p + 6) =~= i16_bytes(t.2));
    lemma_i16_field(d, p, t.0);
    lemma_i16_field(d, p + 2, t.1);
    lemma_i16_field(d, p + 4, t.2);
}

/// A frame of a terrain sprite.
#[derive(Debug, Default, Clone)]
pub struct TerrainSpriteFrame {
    pub num_frames: i16,
    pub num_facets: i16,
    pub frame_id: i16,
}

impl View for TerrainSpriteFrame {
    type V = (i16, i16, i16);

    open spec fn view(&self) -> (i16, i16, i16) {
        (self.num_frames, self.num_facets, self.frame_id)
    }
}

impl TerrainSpriteFrame {
    /// Read a sprite frame at `pos` (three `i16` fields, laid out as a tile size is);
    /// returns it and the position after it.
    pub fn from(input: &[u8], pos: usize) -> (r: Result<(Self, usize), ReadError>)
        ensures
            r is Ok <==> pos + 6 <= input.len(),
            r matches Ok((t, p)) ==> t@ == i16_triple_at(input@, pos as int) && p == pos + 6,
            r matches Err(e) ==> e == ReadError::UnexpectedEof,
    {
        let (num_frames, p) = read_i16_le(input, pos)?;
        let (num_facets, p) = read_i16_le(input, p)?;
        let (frame_id, p) = read_i16_le(input, p)?;
        Ok((TerrainSpriteFrame { num_frames, num_facets, frame_id }, p))
    }

    /// Append this sprite frame to `output`.
    pub fn write_to(&self, output: &mut Vec<u8>)
        ensures
            final(output)@ == old(output)@ + i16_triple_bytes(self@),
    {
        put_i16_le(output, self.num_frames);
        put_i16_le(output, self.num_facets);
        put_i16_le(output, self.frame_id);
        assert(output@ =~= old(output)@ + i16_triple_bytes(self@));
    }
}

/// An object placed on a terrain when a map is generated.
#[derive(Debug, Default, Clone)]
pub struct TerrainObject {
    pub object_id: UnitTypeID,
    pub density: i16,
    pub placement_flag: i8,
}

} // verus!
