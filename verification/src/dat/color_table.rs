//! Player colour tables of a data file.
use crate::codec::{
    i32_at, i32_bytes, lemma_field_lens, lemma_i32_field, put_i32_le, read_i32_le, ReadError,
};
use jascpal::PaletteIndex;
use std::convert::TryFrom;
use vstd::prelude::*;

verus! {

/// `jascpal`'s index into a 256-colour palette.
#[verifier::external_type_specification]
#[verifier::external_body]
pub struct ExPaletteIndex(PaletteIndex);

/// The palette entry that an index stands for, as `i32::from` gives it.
pub uninterp spec fn palette_entry(p: PaletteIndex) -> u8;

/// `<PaletteIndex as TryFrom<i32>>::try_from`: an index for the numbers 0 to 255, and an
/// error for any other.
#[verifier::external_body]
fn palette_index_from_i32(n: i32) -> (r: Option<PaletteIndex>)
    ensures
        r is Some <==> 0 <= n <= 255,
        r matches Some(p) ==> palette_entry(p) == n,
{
    match PaletteIndex::try_from(n) {
        Ok(p) => Some(p),
        Err(_) => None,
    }
}

/// `<i32 as From<PaletteIndex>>::from`: the palette entry.
#[verifier::external_body]
fn palette_index_to_i32(p: PaletteIndex) -> (n: i32)
    ensures
        n == palette_entry(p),
{
    i32::from(p)
}

/// Player colour data.
#[derive(Debug)]
pub struct ColorTable {
    pub id: i32,
    /// Base palette index for this player colour.
    pub base: PaletteIndex,
    /// The palette index to use for unit outlines when they are obscured by buildings or trees.
    pub unit_outline_color: PaletteIndex,
    pub unit_selection_colors: (PaletteIndex, PaletteIndex),
    /// Palette indices for this colour on the minimap.
    pub minimap_colors: (PaletteIndex, PaletteIndex, PaletteIndex),
    /// Color table to use for this player colour in the in-game statistics in the bottom right.
    pub statistics_text_color: i32,
}

/// The abstract value of a colour table: its ID, then the seven palette entries (base,
/// outline, two selection colours, three minimap colours), then the statistics colour.
pub ghost struct ColorTableView {
    pub id: i32,
    pub entries: Seq<u8>,
    pub statistics_text_color: i32,
}

impl View for ColorTable {
    type V = ColorTableView;

    open spec fn view(&self) -> ColorTableView {
        ColorTableView {
            id: self.id,
            entries: seq![
                palette_entry(self.base),
                palette_entry(self.unit_outline_color),
                palette_entry(self.unit_selection_colors.0),
                palette_entry(self.unit_selection_colors.1),
                palette_entry(self.minimap_colors.0),
                palette_entry(self.minimap_colors.1),
                palette_entry(self.minimap_colors.2),
            ],
            statistics_text_color: self.statistics_text_color,
        }
    }
}

impl Clone for ColorTable {
    fn clone(&self) -> (c: Self)
        ensures
            c@ == self@,
    {
        ColorTable {
            id: self.id,
            base: self.base,
            unit_outline_color: self.unit_outline_color,
            unit_selection_colors: (self.unit_selection_colors.0, self.unit_selection_colors.1),
            minimap_colors: (self.minimap_colors.0, self.minimap_colors.1, self.minimap_colors.2),
            statistics_text_color: self.statistics_text_color,
        }
    }
}

/// Palette entry `k` (0 to 6) of the colour table stored at `pos`, as it is stored.
pub open spec fn stored_entry(data: Seq<u8>, pos: int, k: int) -> i32 {
    i32_at(data, pos + 4 + 4 * k)
}

/// Whether every palette entry of the colour table at `pos` that is stored in full is a
/// palette index (0 to 255); reading one that is not panics.
pub open spec fn color_table_entries_valid(data: Seq<u8>, pos: int) -> bool {
    forall|k: int|
        0 <= k < 7 && pos + 8 + 4 * k <= data.len() ==> 0 <= #[trigger] stored_entry(data, pos, k)
            <= 255
}

/// The colour table stored at `pos`: nine little-endian `i32` fields.
pub open spec fn color_table_at(data: Seq<u8>, pos: int) -> ColorTableView {
    ColorTableView {
        id: i32_at(data, pos),
        entries: Seq::new(7, |k: int| stored_entry(data, pos, k) as u8),
        statistics_text_color: i32_at(data, pos + 32),
    }
}

/// The 36 bytes a colour table is stored as.
pub open spec fn color_table_bytes(c: ColorTableView) -> Seq<u8> {
    i32_bytes(c.id) + i32_bytes(c.entries[0] as i32) + i32_bytes(c.entries[1] as i32) + i32_bytes(
        c.entries[2] as i32,
    ) + i32_bytes(c.entries[3] as i32) + i32_bytes(c.entries[4] as i32) + i32_bytes(
        c.entries[5] as i32,
    ) + i32_bytes(c.entries[6] as i32) + i32_bytes(c.statistics_text_color)
}

/// Read one palette entry at `p`, the `k`-th of the colour table at `pos`.
fn read_entry(input: &[u8], pos: usize, k: usize, p: usize) -> (r: Result<(PaletteIndex, usize), ReadError>)
    requires
        k < 7,
        p == pos + 4 + 4 * k,
        color_table_entries_valid(input@, pos as int),
    ensures
        r is Ok <==> p + 4 <= input.len(),
        r matches Ok((e, q)) ==> palette_entry(e) == stored_entry(input@, pos as int, k as int)
            && q == p + 4,
        r matches Err(e) ==> e == ReadError::UnexpectedEof,
{
    let (n, q) = read_i32_le(input, p)?;
    assert(0 <= stored_entry(input@, pos as int, k as int) <= 255);
    match palette_index_from_i32(n) {
        Some(e) => Ok((e, q)),
        None => {
            assert(false);
            Err(ReadError::InvalidData)
        },
    }
}

impl ColorTable {
    /// Read a colour table at `pos`; returns it and the position after it. Its palette
    /// entries must be palette indices.
    pub fn read_from(input: &[u8], pos: usize) -> (r: Result<(Self, usize), ReadError>)
        requires
            color_table_entries_valid(input@, pos as int),
        ensures
            r is Ok <==> pos + 36 <= input.len(),
            r matches Ok((c, p)) ==> c@ == color_table_at(input@, pos as int) && p == pos + 36,
            r matches Err(e) ==> e == ReadError::UnexpectedEof,
    {
        let (id, p) = read_i32_le(input, pos)?;
        let (base, p) = read_entry(input, pos, 0, p)?;
        let (unit_outline_color, p) = read_entry(input, pos, 1, p)?;
        let (selection0, p) = read_entry(input, pos, 2, p)?;
        let (selection1, p) = read_entry(input, pos, 3, p)?;
        let (minimap0, p) = read_entry(input, pos, 4, p)?;
        let (minimap1, p) = read_entry(input, pos, 5, p)?;
        let (minimap2, p) = read_entry(input, pos, 6, p)?;
        let (statistics_text_color, p) = read_i32_le(input, p)?;
        let c = ColorTable {
            id,
            base,
            unit_outline_color,
            unit_selection_colors: (selection0, selection1),
            minimap_colors: (minimap0, minimap1, minimap2),
            statistics_text_color,
        };
        assert(c@.entries =~= color_table_at(input@, pos as int).entries);
        Ok((c, p))
    }

    /// Append this colour table to `output`.
    pub fn write_to(&self, output: &mut Vec<u8>)
        ensures
            final(output)@ == old(output)@ + color_table_bytes(self@),
    {
        put_i32_le(output, self.id);
        put_i32_le(output, palette_index_to_i32(self.base));
        put_i32_le(output, palette_index_to_i32(self.unit_outline_color));
        put_i32_le(output, palette_index_to_i32(self.unit_selection_colors.0));
        put_i32_le(output, palette_index_to_i32(self.unit_selection_colors.1));
        put_i32_le(output, palette_index_to_i32(self.minimap_colors.0));
        put_i32_le(output, palette_index_to_i32(self.minimap_colors.1));
        put_i32_le(output, palette_index_to_i32(self.minimap_colors.2));
        put_i32_le(output, self.statistics_text_color);
        assert(output@ =~= old(output)@ + color_table_bytes(self@));
    }
}

/// A colour table that is written reads back unchanged, wherever it stands; its entries are
/// palette indices, so reading it does not panic.
pub proof fn law_color_table_read_of_write(prefix: Seq<u8>, c: ColorTableView, suffix: Seq<u8>)
    requires
        c.entries.len() == 7,
    ensures
        color_table_bytes(c).len() == 36,
        color_table_entries_valid(prefix + color_table_bytes(c) + suffix, prefix.len() as int),
        color_table_at(prefix + color_table_bytes(c) + suffix, prefix.len() as int) == c,
{
    lemma_field_lens();
    let d = prefix + color_table_bytes(c) + suffix;
    let p = prefix.len() as int;
    assert(d.subrange(p, p + 4) =~= i32_bytes(c.id));
    lemma_i32_field(d, p, c.id);
    assert forall|k: int| 0 <= k < 7 implies #[trigger] stored_entry(d, p, k) == c.entries[k] as i32 by {
        assert(d.subrange(p + 4 + 4 * k, p + 8 + 4 * k) =~= i32_bytes(c.entries[k] as i32));
        lemma_i32_field(d, p + 4 + 4 * k, c.entries[k] as i32);
    }
    assert(d.subrange(p + 32, p + 36) =~= i32_bytes(c.statistics_text_color));
    lemma_i32_field(d, p + 32, c.statistics_text_color);
    assert(color_table_at(d, p).entries =~= c.entries);
}

} // verus!
