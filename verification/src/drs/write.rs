//! Writing `.drs` archives.
//!
//! DRS files contain metadata at the start of the archive, and the size of this metadata depends
//! on the number of files, the different types of files, and the sizes of the files that are added
//! to the archive. To correctly write an archive, we need to know the number and sizes of
//! files before writing the header, and we only know where to put the files once the size of the
//! header is known.
//!
//! The `InMemory` strategy keeps the files until the archive is finished, and then writes
//! the directory followed by the files of each table in turn. The `ReserveDirectory`
//! strategy reserves space for the directory, writes each file as it is added, and fills
//! the directory in at the end.
use crate::codec::{le_bytes, lemma_pow256_values, push_bytes, push_zeros, put_u32_le};
use crate::drs::{
    lemma_type_len, default_banner, default_password, default_version, header_bytes, resource_entry,
    table_entry, DRSHeader, DRSResource, DRSTable, HeaderFields, ResourceType, TableView,
};
use vstd::prelude::*;

verus! {

/// A resource added to an archive: its type, its ID and its bytes.
pub type Added = (Seq<u8>, u32, Seq<u8>);

/// Tables of an archive being written: each a type and the positions, in the order of
/// adding, of the added resources that it holds.
pub type Grouped = Seq<(Seq<u8>, Seq<int>)>;

/// The position of the table of type `ty`, if there is one.
pub open spec fn type_index(ts: Grouped, ty: Seq<u8>) -> Option<int> {
    if exists|k: int| 0 <= k < ts.len() && (#[trigger] ts[k]).0 == ty {
        Some(choose|k: int| 0 <= k < ts.len() && (#[trigger] ts[k]).0 == ty)
    } else {
        None
    }
}

/// The tables that adding the resources `added` in turn makes: a resource goes to the
/// table of its type, and a type not seen before starts a new table at the end.
pub open spec fn tables_of(added: Seq<Added>) -> Grouped
    decreases added.len(),
{
    if added.len() == 0 {
        Seq::empty()
    } else {
        let ts = tables_of(added.drop_last());
        let i = added.len() - 1;
        let ty = added.last().0;
        match type_index(ts, ty) {
            Some(k) => ts.update(k, (ty, ts[k].1.push(i))),
            None => ts.push((ty, seq![i])),
        }
    }
}

/// The positions of the added resources of type `ty`, in ascending order.
pub open spec fn filter_indices(added: Seq<Added>, ty: Seq<u8>) -> Seq<int>
    decreases added.len(),
{
    if added.len() == 0 {
        Seq::empty()
    } else {
        let f = filter_indices(added.drop_last(), ty);
        if added.last().0 == ty {
            f.push(added.len() - 1)
        } else {
            f
        }
    }
}

/// The bytes of the added resources at the positions `ix`, one after the other.
pub open spec fn data_bytes(added: Seq<Added>, ix: Seq<int>) -> Seq<u8>
    decreases ix.len(),
{
    if ix.len() == 0 {
        Seq::empty()
    } else {
        data_bytes(added, ix.drop_last()) + added[ix.last()].2
    }
}

/// The bytes of all added resources, in the order of adding.
pub open spec fn added_data(added: Seq<Added>) -> Seq<u8>
    decreases added.len(),
{
    if added.len() == 0 {
        Seq::empty()
    } else {
        added_data(added.drop_last()) + added.last().2
    }
}

/// The number of resources of the tables `ts`.
pub open spec fn count(ts: Grouped) -> nat
    decreases ts.len(),
{
    if ts.len() == 0 {
        0
    } else {
        count(ts.drop_last()) + ts.last().1.len()
    }
}

/// The table entries of `ts`, whose resource entries start at `base`.
pub open spec fn table_entries(ts: Grouped, base: int) -> Seq<u8>
    decreases ts.len(),
{
    if ts.len() == 0 {
        Seq::empty()
    } else {
        let init = ts.drop_last();
        table_entries(init, base) + table_entry(
            ts.last().0,
            (base + 12 * count(init)) as u32,
            ts.last().1.len() as u32,
        )
    }
}

/// The resource entries of the added resources at positions `ix`, whose bytes follow one
/// another from `off` on.
pub open spec fn entries_of(added: Seq<Added>, ix: Seq<int>, off: int) -> Seq<u8>
    decreases ix.len(),
{
    if ix.len() == 0 {
        Seq::empty()
    } else {
        let init = ix.drop_last();
        let a = added[ix.last()];
        entries_of(added, init, off) + resource_entry(
            (a.1, (off + data_bytes(added, init).len()) as u32, a.2.len() as u32),
        )
    }
}

/// The bytes of the resources of the tables `ts`, table after table.
pub open spec fn tables_data(added: Seq<Added>, ts: Grouped) -> Seq<u8>
    decreases ts.len(),
{
    if ts.len() == 0 {
        Seq::empty()
    } else {
        tables_data(added, ts.drop_last()) + data_bytes(added, ts.last().1)
    }
}

/// The resource entries of the tables `ts`, table after table, when their bytes follow one
/// another in that order from `off` on.
pub open spec fn memory_entries(added: Seq<Added>, ts: Grouped, off: int) -> Seq<u8>
    decreases ts.len(),
{
    if ts.len() == 0 {
        Seq::empty()
    } else {
        let init = ts.drop_last();
        memory_entries(added, init, off) + entries_of(
            added,
            ts.last().1,
            off + tables_data(added, init).len(),
        )
    }
}

/// Where the bytes of the `i`-th added resource start, when all are written in the order
/// of adding from `off` on.
pub open spec fn placed_offset(added: Seq<Added>, i: int, off: int) -> int {
    off + added_data(added.take(i)).len()
}

/// The resource entries of the added resources at positions `ix`, placed in the order of
/// adding from `off` on.
pub open spec fn placed_entries(added: Seq<Added>, ix: Seq<int>, off: int) -> Seq<u8>
    decreases ix.len(),
{
    if ix.len() == 0 {
        Seq::empty()
    } else {
        let a = added[ix.last()];
        placed_entries(added, ix.drop_last(), off) + resource_entry(
            (a.1, placed_offset(added, ix.last(), off) as u32, a.2.len() as u32),
        )
    }
}

/// The resource entries of the tables `ts`, table after table, with their bytes placed in
/// the order of adding from `off` on.
pub open spec fn reserve_entries(added: Seq<Added>, ts: Grouped, off: int) -> Seq<u8>
    decreases ts.len(),
{
    if ts.len() == 0 {
        Seq::empty()
    } else {
        reserve_entries(added, ts.drop_last(), off) + placed_entries(added, ts.last().1, off)
    }
}

/// The header of an archive written by the library.
pub open spec fn written_header(num_tables: nat, directory_size: nat) -> HeaderFields {
    (default_banner(), default_version(), default_password(), num_tables as u32, directory_size as u32)
}

/// The archive that the in-memory strategy writes for the resources `added`: header,
/// table entries, resource entries, and the bytes of the resources table after table.
pub open spec fn memory_archive(added: Seq<Added>) -> Seq<u8> {
    let ts = tables_of(added);
    let dir = 64 + 12 * (ts.len() + added.len());
    header_bytes(written_header(ts.len(), dir)) + table_entries(ts, (64 + 12 * ts.len()) as int)
        + memory_entries(added, ts, dir as int) + tables_data(added, ts)
}

/// The archive that the reserve-directory strategy, with room for `reserved_tables` tables
/// and `reserved_files` files, writes for the resources `added`: header, table entries,
/// resource entries, the rest of the reserved room as zeros, and the bytes of the
/// resources in the order of adding.
pub open spec fn reserve_archive(reserved_tables: u32, reserved_files: u32, added: Seq<Added>) -> Seq<u8> {
    let ts = tables_of(added);
    let dir = 64 + 12 * (reserved_tables + reserved_files);
    header_bytes(written_header(ts.len(), dir as nat)) + table_entries(ts, (64 + 12 * ts.len()) as int)
        + reserve_entries(added, ts, dir) + Seq::new(
        (dir - 64 - 12 * (ts.len() + added.len())) as nat,
        |i: int| 0u8,
    ) + added_data(added)
}

/// What `tables_of` keeps: distinct types, each table holding the positions of the
/// resources of its type, and no resource without a table.
pub open spec fn grouped_wf(added: Seq<Added>, ts: Grouped) -> bool {
    &&& forall|a: int, b: int|
        0 <= a < ts.len() && 0 <= b < ts.len() && a != b ==> (#[trigger] ts[a]).0 != (
        #[trigger] ts[b]).0
    &&& forall|k: int| 0 <= k < ts.len() ==> (#[trigger] ts[k]).1 == filter_indices(added, ts[k].0)
    &&& forall|k: int| 0 <= k < ts.len() ==> (#[trigger] ts[k]).1.len() > 0
    &&& forall|ty: Seq<u8>|
        type_index(ts, ty) is None ==> #[trigger] filter_indices(added, ty) == Seq::<int>::empty()
}

proof fn lemma_type_index(ts: Grouped, ty: Seq<u8>, k: int)
    requires
        0 <= k < ts.len(),
        ts[k].0 == ty,
        forall|a: int, b: int|
            0 <= a < ts.len() && 0 <= b < ts.len() && a != b ==> (#[trigger] ts[a]).0 != (
            #[trigger] ts[b]).0,
    ensures
        type_index(ts, ty) == Some(k),
{
}

/// The tables made by adding resources keep their types distinct and hold, for each type,
/// exactly the resources of that type in the order of adding.
pub proof fn lemma_tables_of(added: Seq<Added>)
    ensures
        grouped_wf(added, tables_of(added)),
        count(tables_of(added)) == added.len(),
    decreases added.len(),
{
    if added.len() > 0 {
        let init = added.drop_last();
        lemma_tables_of(init);
        let ts0 = tables_of(init);
        let ts = tables_of(added);
        let i = added.len() - 1;
        let ty = added.last().0;
        assert forall|t: Seq<u8>| #[trigger] filter_indices(added, t) == (if t == ty {
            filter_indices(init, t).push(i)
        } else {
            filter_indices(init, t)
        }) by {}
        match type_index(ts0, ty) {
            Some(k) => {
                assert(0 <= k < ts0.len() && ts0[k].0 == ty);
                assert(ts == ts0.update(k, (ty, ts0[k].1.push(i))));
                assert forall|t: Seq<u8>| type_index(ts, t) is None implies #[trigger] filter_indices(
                    added,
                    t,
                ) == Seq::<int>::empty() by {
                    if t == ty {
                        assert(ts[k].0 == t);
                    } else {
                        if exists|j: int| 0 <= j < ts0.len() && (#[trigger] ts0[j]).0 == t {
                            let j = choose|j: int| 0 <= j < ts0.len() && (#[trigger] ts0[j]).0 == t;
                            assert(ts[j].0 == t);
                        }
                    }
                }
                lemma_count_update(ts0, k, (ty, ts0[k].1.push(i)));
            },
            None => {
                assert(ts == ts0.push((ty, seq![i])));
                assert(filter_indices(init, ty) == Seq::<int>::empty());
                assert(seq![i] =~= Seq::<int>::empty().push(i));
                assert forall|t: Seq<u8>| type_index(ts, t) is None implies #[trigger] filter_indices(
                    added,
                    t,
                ) == Seq::<int>::empty() by {
                    if t == ty {
                        assert(ts[ts0.len() as int].0 == t);
                    } else {
                        if exists|j: int| 0 <= j < ts0.len() && (#[trigger] ts0[j]).0 == t {
                            let j = choose|j: int| 0 <= j < ts0.len() && (#[trigger] ts0[j]).0 == t;
                            assert(ts[j].0 == t);
                        }
                    }
                }
                assert(ts.drop_last() =~= ts0);
            },
        }
    }
}

proof fn lemma_count_update(ts: Grouped, k: int, t: (Seq<u8>, Seq<int>))
    requires
        0 <= k < ts.len(),
    ensures
        count(ts.update(k, t)) == count(ts) - ts[k].1.len() + t.1.len(),
    decreases ts.len(),
{
    let u = ts.update(k, t);
    if k == ts.len() - 1 {
        assert(u.drop_last() =~= ts.drop_last());
    } else {
        lemma_count_update(ts.drop_last(), k, t);
        assert(u.drop_last() =~= ts.drop_last().update(k, t));
    }
}


/// The length of a sequence of table entries and of resource entries.
proof fn lemma_table_entries_len(ts: Grouped, base: int)
    requires
        forall|k: int| 0 <= k < ts.len() ==> (#[trigger] ts[k]).0.len() == 4,
    ensures
        table_entries(ts, base).len() == 12 * ts.len(),
    decreases ts.len(),
{
    lemma_pow256_values();
    if ts.len() > 0 {
        let init = ts.drop_last();
        assert forall|k: int| 0 <= k < init.len() implies (#[trigger] init[k]).0.len() == 4 by {
            assert(init[k] == ts[k]);
        }
        lemma_table_entries_len(init, base);
        crate::codec::lemma_le_bytes_len((base + 12 * count(init)) as u32 as nat, 4);
        crate::codec::lemma_le_bytes_len(ts.last().1.len() as u32 as nat, 4);
    }
}

proof fn lemma_resource_entry_len(e: (u32, u32, u32))
    ensures
        resource_entry(e).len() == 12,
{
    lemma_pow256_values();
    crate::codec::lemma_le_bytes_len(e.0 as nat, 4);
    crate::codec::lemma_le_bytes_len(e.1 as nat, 4);
    crate::codec::lemma_le_bytes_len(e.2 as nat, 4);
}

proof fn lemma_placed_entries_len(added: Seq<Added>, ix: Seq<int>, off: int)
    ensures
        placed_entries(added, ix, off).len() == 12 * ix.len(),
    decreases ix.len(),
{
    if ix.len() > 0 {
        lemma_placed_entries_len(added, ix.drop_last(), off);
        let a = added[ix.last()];
        lemma_resource_entry_len((a.1, placed_offset(added, ix.last(), off) as u32, a.2.len() as u32));
    }
}

proof fn lemma_reserve_entries_len(added: Seq<Added>, ts: Grouped, off: int)
    ensures
        reserve_entries(added, ts, off).len() == 12 * count(ts),
    decreases ts.len(),
{
    if ts.len() > 0 {
        lemma_reserve_entries_len(added, ts.drop_last(), off);
        lemma_placed_entries_len(added, ts.last().1, off);
    }
}

/// The positions of resources of a type among the first `j` are a prefix of those among all.
proof fn lemma_filter_prefix(added: Seq<Added>, ty: Seq<u8>, j: int)
    requires
        0 <= j <= added.len(),
    ensures
        filter_indices(added.take(j), ty) == filter_indices(added, ty).take(
            filter_indices(added.take(j), ty).len() as int,
        ),
        filter_indices(added.take(j), ty).len() <= filter_indices(added, ty).len(),
    decreases added.len() - j,
{
    if j == added.len() {
        assert(added.take(j) =~= added);
    } else {
        lemma_filter_prefix(added, ty, j + 1);
        assert(added.take(j + 1).drop_last() =~= added.take(j));
    }
}

/// Writes `bytes` over the bytes of `out` from `pos` on, as a cursor over a vector does
/// where the bytes are already there.
fn overwrite(out: &mut Vec<u8>, pos: usize, bytes: &[u8])
    requires
        pos + bytes.len() <= old(out).len(),
    ensures
        final(out)@ == old(out)@.take(pos as int) + bytes@ + old(out)@.skip(pos + bytes.len()),
{
    let mut i: usize = 0;
    while i < bytes.len()
        invariant
            pos + bytes.len() <= old(out).len(),
            i <= bytes.len(),
            out@ == old(out)@.take(pos as int) + bytes@.take(i as int) + old(out)@.skip(pos + i),
        decreases bytes.len() - i,
    {
        out.set(pos + i, bytes[i]);
        i = i + 1;
        assert(out@ =~= old(out)@.take(pos as int) + bytes@.take(i as int) + old(out)@.skip(pos + i));
    }
    assert(bytes@.take(bytes.len() as int) =~= bytes@);
}

/// Create the entire DRS file in memory first, then write it out.
///
/// This works best for archives with small files.
pub struct InMemoryStrategy {
    resources: Vec<(ResourceType, Vec<u8>)>,
}

impl View for InMemoryStrategy {
    /// The types and bytes of the files kept so far.
    type V = Seq<(Seq<u8>, Seq<u8>)>;

    closed spec fn view(&self) -> Seq<(Seq<u8>, Seq<u8>)> {
        self.resources@.map_values(|r: (ResourceType, Vec<u8>)| (r.0@, r.1@))
    }
}

impl Default for InMemoryStrategy {
    fn default() -> (s: Self)
        ensures
            s@ == Seq::<(Seq<u8>, Seq<u8>)>::empty(),
    {
        let s = InMemoryStrategy { resources: Vec::new() };
        assert(s@ =~= Seq::<(Seq<u8>, Seq<u8>)>::empty());
        s
    }
}

/// Writer strategy that reserves space for metadata for the given amount of tables and files
/// at the top of the file, then fills it in at the end.
pub struct ReserveDirectoryStrategy {
    reserved_tables: u32,
    file_space_left: u32,
    write_offset: u32,
}

impl View for ReserveDirectoryStrategy {
    /// The reserved tables, the files that still fit, and where the next file goes.
    type V = (u32, u32, u32);

    closed spec fn view(&self) -> (u32, u32, u32) {
        (self.reserved_tables, self.file_space_left, self.write_offset)
    }
}

impl ReserveDirectoryStrategy {
    /// Create a write strategy using a reserved metadata block.
    ///
    /// The strategy will support up to `reserved_tables` tables and `reserved_files` files.
    /// The total size of the reserved metadata block will be `12 * (reserved_tables +
    /// reserved_files)` bytes.
    pub fn new(reserved_tables: u32, reserved_files: u32) -> (s: Self)
        requires
            64 + 12 * (reserved_tables + reserved_files) <= u32::MAX,
        ensures
            s@ == (reserved_tables, reserved_files, (64 + 12 * (reserved_tables + reserved_files)) as u32),
    {
        ReserveDirectoryStrategy {
            reserved_tables,
            file_space_left: reserved_files,
            write_offset: 64 + 12 * (reserved_tables + reserved_files),
        }
    }
}

impl Default for ReserveDirectoryStrategy {
    /// The default strategy reserves space for 65536 files spread across 10 tables, meaning a
    /// directory size of about 768KiB.
    fn default() -> (s: Self)
        ensures
            s@ == (10u32, 65536u32, (64 + 12 * 65546) as u32),
    {
        ReserveDirectoryStrategy::new(10, 65536)
    }
}

/// Strategy to use when writing files to the archive.
pub enum Strategy {
    /// Keep the files in memory and write them at the end.
    InMemory(InMemoryStrategy),
    /// Write each file as it comes, into room reserved for the directory.
    ReserveDirectory(ReserveDirectoryStrategy),
}

impl From<InMemoryStrategy> for Strategy {
    fn from(s: InMemoryStrategy) -> (r: Self)
        ensures
            r == Strategy::InMemory(s),
    {
        Strategy::InMemory(s)
    }
}

impl vstd::std_specs::convert::FromSpecImpl<InMemoryStrategy> for Strategy {
    open spec fn obeys_from_spec() -> bool {
        true
    }

    open spec fn from_spec(s: InMemoryStrategy) -> Self {
        Strategy::InMemory(s)
    }
}

impl From<ReserveDirectoryStrategy> for Strategy {
    fn from(s: ReserveDirectoryStrategy) -> (r: Self)
        ensures
            r == Strategy::ReserveDirectory(s),
    {
        Strategy::ReserveDirectory(s)
    }
}

impl vstd::std_specs::convert::FromSpecImpl<ReserveDirectoryStrategy> for Strategy {
    open spec fn obeys_from_spec() -> bool {
        true
    }

    open spec fn from_spec(s: ReserveDirectoryStrategy) -> Self {
        Strategy::ReserveDirectory(s)
    }
}

/// The directory size that a strategy starts with: that of its reserved room, or none.
pub open spec fn reserved_room(reserved: Option<(u32, u32)>) -> int {
    match reserved {
        None => 0,
        Some((t, f)) => 64 + 12 * (t + f),
    }
}

/// The offset that a table entry of the writer holds for the `m`-th resource of table `k`:
/// none yet with the in-memory strategy, the place of its bytes with the reserved room.
pub open spec fn writer_offset(added: Seq<Added>, ts: Grouped, k: int, m: int, reserved: Option<(u32, u32)>) -> u32 {
    match reserved {
        None => 0,
        Some(_) => placed_offset(added, ts[k].1[m], reserved_room(reserved)) as u32,
    }
}

/// The writer's table `t` is table `k` of `ts`.
pub open spec fn table_written(
    t: TableView,
    added: Seq<Added>,
    ts: Grouped,
    k: int,
    reserved: Option<(u32, u32)>,
) -> bool {
    &&& t.0 == ts[k].0
    &&& t.1 == 0
    &&& t.2 == ts[k].1.len()
    &&& t.4 == Seq::<u32>::empty()
    &&& t.3 == Seq::new(
        ts[k].1.len(),
        |m: int|
            (
                added[ts[k].1[m]].1,
                writer_offset(added, ts, k, m, reserved),
                added[ts[k].1[m]].2.len() as u32,
            ),
    )
}

/// Generator for .drs archives.
pub struct DRSWriter {
    output: Vec<u8>,
    header: DRSHeader,
    tables: Vec<DRSTable>,
    strategy: Strategy,
    added: Ghost<Seq<Added>>,
    reserved: Ghost<Option<(u32, u32)>>,
}

impl View for DRSWriter {
    /// The room reserved for the directory (tables and files), if any, and the resources
    /// added so far.
    type V = (Option<(u32, u32)>, Seq<Added>);

    closed spec fn view(&self) -> (Option<(u32, u32)>, Seq<Added>) {
        (self.reserved@, self.added@)
    }
}

impl DRSWriter {
    /// What every writer keeps: its tables are those that the added resources make, and its
    /// strategy holds (or has written) their bytes.
    pub closed spec fn wf(&self) -> bool {
        let added = self.added@;
        let ts = tables_of(added);
        let reserved = self.reserved@;
        &&& forall|i: int| 0 <= i < added.len() ==> (#[trigger] added[i]).0.len() == 4
        &&& forall|i: int| 0 <= i < added.len() ==> (#[trigger] added[i]).2.len() < u32::MAX
        &&& self.tables@.len() == ts.len()
        &&& forall|k: int|
            0 <= k < ts.len() ==> table_written(
                #[trigger] self.tables@[k]@,
                added,
                ts,
                k,
                reserved,
            )
        &&& match (reserved, &self.strategy) {
            (None, Strategy::InMemory(m)) => {
                &&& self.output@ == Seq::<u8>::empty()
                &&& self.header@ == written_header(0, 0)
                &&& m.resources@.len() == added.len()
                &&& forall|j: int|
                    0 <= j < added.len() ==> (#[trigger] m.resources@[j]).0@ == added[j].0
                        && m.resources@[j].1@ == added[j].2
            },
            (Some((t, f)), Strategy::ReserveDirectory(r)) => {
                let dir = 64 + 12 * (t + f);
                &&& dir <= u32::MAX
                &&& added.len() <= f
                &&& r@ == (t, (f - added.len()) as u32, (dir + added_data(added).len()) as u32)
                &&& dir + added_data(added).len() <= u32::MAX
                &&& self.header@ == written_header(0, dir as nat)
                &&& self.output@ == header_bytes(written_header(0, dir as nat)) + Seq::new(
                    (dir - 64) as nat,
                    |i: int| 0u8,
                ) + added_data(added)
            },
            _ => false,
        }
    }
}


/// The positions that `filter_indices` gives are positions of resources of the type.
proof fn lemma_filter_bounds(added: Seq<Added>, ty: Seq<u8>)
    ensures
        forall|m: int|
            0 <= m < filter_indices(added, ty).len() ==> 0 <= #[trigger] filter_indices(added, ty)[m]
                < added.len() && added[filter_indices(added, ty)[m]].0 == ty,
    decreases added.len(),
{
    if added.len() > 0 {
        lemma_filter_bounds(added.drop_last(), ty);
        let f = filter_indices(added.drop_last(), ty);
        assert forall|m: int| 0 <= m < f.len() implies added[f[m]] == added.drop_last()[f[m]] by {}
    }
}

/// Copies a slice into a new vector.
fn copy_bytes(data: &[u8]) -> (v: Vec<u8>)
    ensures
        v@ == data@,
{
    let mut v: Vec<u8> = Vec::new();
    push_bytes(&mut v, data);
    assert(v@ =~= data@);
    v
}

impl DRSWriter {
    /// Create a writer with the given strategy; with a reserved directory, the header and
    /// the reserved room are written at once.
    pub fn new(strategy: Strategy) -> (w: Self)
        requires
            match strategy {
                Strategy::InMemory(m) => m@.len() == 0,
                Strategy::ReserveDirectory(r) => r@.2 == 64 + 12 * (r@.0 + r@.1),
            },
        ensures
            w.wf(),
            w@.1 == Seq::<Added>::empty(),
            w@.0 == match strategy {
                Strategy::InMemory(_) => None,
                Strategy::ReserveDirectory(r) => Some((r@.0, r@.1)),
            },
    {
        let mut header = DRSHeader::default();
        let mut output: Vec<u8> = Vec::new();
        let ghost reserved = match &strategy {
            Strategy::InMemory(_) => None,
            Strategy::ReserveDirectory(r) => Some((r@.0, r@.1)),
        };
        match &strategy {
            Strategy::InMemory(m) => {
                assert(m.resources@.len() == m@.len());
            },
            Strategy::ReserveDirectory(r) => {
                let dir = r.write_offset;
                header.set_counts(0, dir);
                header.write_to(&mut output);
                push_zeros(&mut output, (dir - 64) as usize);
                proof {
                    assert(added_data(Seq::<Added>::empty()) == Seq::<u8>::empty());
                    assert(output@ =~= header_bytes(written_header(0, dir as nat)) + Seq::new(
                        (dir - 64) as nat,
                        |i: int| 0u8,
                    ) + added_data(Seq::<Added>::empty()));
                }
            },
        }
        DRSWriter {
            output,
            header,
            tables: Vec::new(),
            strategy,
            added: Ghost(Seq::empty()),
            reserved: Ghost(reserved),
        }
    }
}


/// The first table of type `t`.
fn find_table(tables: &Vec<DRSTable>, t: &ResourceType) -> (r: Option<usize>)
    ensures
        match r {
            Some(k) => k < tables@.len() && tables@[k as int]@.0 == t@,
            None => forall|j: int| 0 <= j < tables@.len() ==> (#[trigger] tables@[j])@.0 != t@,
        },
{
    let mut k: usize = 0;
    while k < tables.len()
        invariant
            k <= tables@.len(),
            forall|j: int| 0 <= j < k ==> (#[trigger] tables@[j])@.0 != t@,
        decreases tables.len() - k,
    {
        if tables[k].resource_type.same(t) {
            return Some(k);
        }
        k = k + 1;
    }
    None
}

/// Adding a resource leaves the places and entries of earlier resources as they were.
proof fn lemma_push_keeps(added: Seq<Added>, a: Added, idx: int, off: int)
    requires
        0 <= idx < added.len(),
    ensures
        added.push(a)[idx] == added[idx],
        placed_offset(added.push(a), idx, off) == placed_offset(added, idx, off),
{
    assert(added.push(a).take(idx) =~= added.take(idx));
}


proof fn lemma_written_kept(
    added: Seq<Added>,
    a: Added,
    ts: Grouped,
    ts2: Grouped,
    k: int,
    tv: TableView,
    reserved: Option<(u32, u32)>,
)
    requires
        0 <= k < ts.len(),
        k < ts2.len(),
        ts2[k] == ts[k],
        table_written(tv, added, ts, k, reserved),
        forall|m: int| 0 <= m < ts[k].1.len() ==> 0 <= #[trigger] ts[k].1[m] < added.len(),
    ensures
        table_written(tv, added.push(a), ts2, k, reserved),
{
    let added2 = added.push(a);
    assert forall|m: int| 0 <= m < ts[k].1.len() implies #[trigger] writer_offset(added2, ts2, k, m, reserved)
        == writer_offset(added, ts, k, m, reserved) && added2[ts[k].1[m]] == added[ts[k].1[m]] by {
        lemma_push_keeps(added, a, ts[k].1[m], reserved_room(reserved));
    }
    assert(tv.3 =~= Seq::new(
        ts2[k].1.len(),
        |m: int|
            (
                added2[ts2[k].1[m]].1,
                writer_offset(added2, ts2, k, m, reserved),
                added2[ts2[k].1[m]].2.len() as u32,
            ),
    ));
}

proof fn lemma_written_grown(
    added: Seq<Added>,
    a: Added,
    ts: Grouped,
    ts2: Grouped,
    k: int,
    tv: TableView,
    tv2: TableView,
    reserved: Option<(u32, u32)>,
    offset: u32,
)
    requires
        0 <= k < ts.len(),
        k < ts2.len(),
        ts2[k] == (ts[k].0, ts[k].1.push(added.len() as int)),
        table_written(tv, added, ts, k, reserved),
        tv.2 < u32::MAX,
        forall|m: int| 0 <= m < ts[k].1.len() ==> 0 <= #[trigger] ts[k].1[m] < added.len(),
        tv2 == (tv.0, tv.1, (tv.2 + 1) as u32, tv.3.push((a.1, offset, a.2.len() as u32)), tv.4),
        offset == match reserved {
            None => 0u32,
            Some(_) => (reserved_room(reserved) + added_data(added).len()) as u32,
        },
    ensures
        table_written(tv2, added.push(a), ts2, k, reserved),
{
    let added2 = added.push(a);
    let n = added.len() as int;
    assert forall|m: int| 0 <= m < ts[k].1.len() implies #[trigger] writer_offset(added2, ts2, k, m, reserved)
        == writer_offset(added, ts, k, m, reserved) && added2[ts[k].1[m]] == added[ts[k].1[m]] by {
        assert(ts2[k].1[m] == ts[k].1[m]);
        lemma_push_keeps(added, a, ts[k].1[m], reserved_room(reserved));
    }
    assert(added2.take(n) =~= added);
    assert(ts2[k].1[ts[k].1.len() as int] == n);
    assert(writer_offset(added2, ts2, k, ts[k].1.len() as int, reserved) == offset);
    assert(tv2.3 =~= Seq::new(
        ts2[k].1.len(),
        |m: int|
            (
                added2[ts2[k].1[m]].1,
                writer_offset(added2, ts2, k, m, reserved),
                added2[ts2[k].1[m]].2.len() as u32,
            ),
    ));
}

impl DRSWriter {
    /// Add a file to the archive: it goes to the table of its type, or to a new table.
    pub fn add(&mut self, t: ResourceType, id: u32, data: &[u8])
        requires
            old(self).wf(),
            data.len() < u32::MAX,
            filter_indices(old(self)@.1, t@).len() < u32::MAX,
            old(self)@.0 matches Some((rt, rf)) ==> old(self)@.1.len() < rf && 64 + 12 * (rt + rf)
                + added_data(old(self)@.1).len() + data.len() <= u32::MAX,
        ensures
            final(self).wf(),
            final(self)@ == (old(self)@.0, old(self)@.1.push((t@, id, data@))),
    {
        let ghost added = self.added@;
        let ghost ts = tables_of(added);
        let ghost n = added.len() as int;
        let ghost reserved = self.reserved@;
        let ghost a: Added = (t@, id, data@);
        let ghost new_added = added.push(a);
        proof {
            lemma_tables_of(added);
            lemma_type_len(t);
            assert(new_added.drop_last() =~= added);
        }
        let size = data.len() as u32;
        let offset: u32 = match &mut self.strategy {
            Strategy::InMemory(m) => {
                m.resources.push((t, copy_bytes(data)));
                0
            },
            Strategy::ReserveDirectory(r) => {
                r.file_space_left = r.file_space_left - 1;
                push_bytes(&mut self.output, data);
                let off = r.write_offset;
                r.write_offset = r.write_offset + size;
                off
            },
        };
        let res = DRSResource::new(id, offset, size);
        let ghost old_tables = self.tables@;
        let found = find_table(&self.tables, &t);
        match found {
            Some(k) => {
                proof {
                    assert(old_tables[k as int]@.0 == ts[k as int].0);
                    lemma_type_index(ts, t@, k as int);
                }
                let mut tb = self.tables.remove(k);
                tb.add(res);
                self.tables.insert(k, tb);
            },
            None => {
                proof {
                    assert forall|j: int| 0 <= j < ts.len() implies (#[trigger] ts[j]).0 != t@ by {
                        assert(old_tables[j]@.0 == ts[j].0);
                    }
                }
                let mut tb = DRSTable::new(t, 0, 0);
                tb.add(res);
                self.tables.push(tb);
            },
        }
        self.added = Ghost(new_added);
        proof {
            let ts2 = tables_of(new_added);
            assert forall|k2: int| 0 <= k2 < ts2.len() implies table_written(
                #[trigger] self.tables@[k2]@,
                new_added,
                ts2,
                k2,
                reserved,
            ) by {
                if k2 < ts.len() {
                    lemma_filter_bounds(added, ts[k2].0);
                    assert(ts[k2].1 == filter_indices(added, ts[k2].0));
                }
                match found {
                    Some(k) => {
                        if k2 == k {
                            lemma_written_grown(added, a, ts, ts2, k2, old_tables[k2]@, self.tables@[k2]@, reserved, offset);
                        } else {
                            assert(self.tables@[k2] == old_tables[k2]);
                            lemma_written_kept(added, a, ts, ts2, k2, old_tables[k2]@, reserved);
                        }
                    },
                    None => {
                        if k2 < ts.len() {
                            assert(self.tables@[k2] == old_tables[k2]);
                            lemma_written_kept(added, a, ts, ts2, k2, old_tables[k2]@, reserved);
                        } else {
                            assert(new_added.take(n) =~= added);
                            assert(self.tables@[k2]@.3 =~= Seq::new(
                                ts2[k2].1.len(),
                                |m: int|
                                    (
                                        new_added[ts2[k2].1[m]].1,
                                        writer_offset(new_added, ts2, k2, m, reserved),
                                        new_added[ts2[k2].1[m]].2.len() as u32,
                                    ),
                            ));
                        }
                    },
                }
            }
            match (reserved, &self.strategy) {
                (None, Strategy::InMemory(m)) => {},
                (Some((rt, rf)), Strategy::ReserveDirectory(r)) => {
                    assert(added_data(new_added) == added_data(added) + data@);
                    assert(self.output@ =~= header_bytes(written_header(0, (64 + 12 * (rt + rf)) as nat))
                        + Seq::new((64 + 12 * (rt + rf) - 64) as nat, |i: int| 0u8) + added_data(new_added));
                },
                _ => {},
            }
        }
    }
}


/// Writes the table entries of the writer's tables, whose resource entries start at `base`.
fn write_table_entries(
    tables: &Vec<DRSTable>,
    base: u32,
    out: &mut Vec<u8>,
    Ghost(added): Ghost<Seq<Added>>,
    Ghost(reserved): Ghost<Option<(u32, u32)>>,
)
    requires
        tables@.len() == tables_of(added).len(),
        forall|k: int|
            0 <= k < tables@.len() ==> table_written(
                #[trigger] tables@[k]@,
                added,
                tables_of(added),
                k,
                reserved,
            ),
        base + 12 * count(tables_of(added)) <= u32::MAX,
    ensures
        final(out)@ == old(out)@ + table_entries(tables_of(added), base as int),
{
    let ghost ts = tables_of(added);
    let mut table_offset: u32 = base;
    let mut k: usize = 0;
    while k < tables.len()
        invariant
            ts == tables_of(added),
            tables@.len() == ts.len(),
            forall|k: int| 0 <= k < tables@.len() ==> table_written(#[trigger] tables@[k]@, added, ts, k, reserved),
            base + 12 * count(ts) <= u32::MAX,
            k <= tables@.len(),
            table_offset == base + 12 * count(ts.take(k as int)),
            out@ == old(out)@ + table_entries(ts.take(k as int), base as int),
        decreases tables.len() - k,
    {
        proof {
            assert(ts.take(k + 1).drop_last() =~= ts.take(k as int));
            assert(ts.take(k + 1).last() == ts[k as int]);
            lemma_count_prefix(ts, k + 1);
        }
        let t = &tables[k];
        assert(t@ == tables@[k as int]@);
        t.write_entry(table_offset, out);
        table_offset = table_offset + 12 * (t.len() as u32);
        k = k + 1;
    }
    assert(ts.take(ts.len() as int) =~= ts);
}

/// The number of resources of a prefix of the tables grows with the prefix.
proof fn lemma_count_prefix(ts: Grouped, k: int)
    requires
        0 <= k <= ts.len(),
    ensures
        count(ts.take(k)) <= count(ts),
    decreases ts.len() - k,
{
    if k < ts.len() {
        lemma_count_prefix(ts, k + 1);
        assert(ts.take(k + 1).drop_last() =~= ts.take(k));
    } else {
        assert(ts.take(k) =~= ts);
    }
}


/// Writes the resource entries of the writer's tables, table after table, with the offsets
/// that they hold.
fn write_held_entries(
    tables: &Vec<DRSTable>,
    out: &mut Vec<u8>,
    Ghost(added): Ghost<Seq<Added>>,
    Ghost(reserved): Ghost<Option<(u32, u32)>>,
)
    requires
        reserved is Some,
        tables@.len() == tables_of(added).len(),
        forall|k: int|
            0 <= k < tables@.len() ==> table_written(
                #[trigger] tables@[k]@,
                added,
                tables_of(added),
                k,
                reserved,
            ),
    ensures
        final(out)@ == old(out)@ + reserve_entries(added, tables_of(added), reserved_room(reserved)),
{
    let ghost ts = tables_of(added);
    let ghost dir = reserved_room(reserved);
    let mut k: usize = 0;
    while k < tables.len()
        invariant
            reserved is Some,
            ts == tables_of(added),
            dir == reserved_room(reserved),
            tables@.len() == ts.len(),
            forall|k: int| 0 <= k < tables@.len() ==> table_written(#[trigger] tables@[k]@, added, ts, k, reserved),
            k <= tables@.len(),
            out@ == old(out)@ + reserve_entries(added, ts.take(k as int), dir),
        decreases tables.len() - k,
    {
        let rs = tables[k].resources();
        let ghost before = out@;
        let ghost ix = ts[k as int].1;
        assert(tables@[k as int]@ == tables[k as int]@);
        assert(crate::drs::entries(rs@).len() == rs@.len());
        assert(rs@.len() == ix.len());
        let mut m: usize = 0;
        while m < rs.len()
            invariant
                reserved is Some,
                0 <= k < ts.len(),
                ix == ts[k as int].1,
                dir == reserved_room(reserved),
                table_written(tables@[k as int]@, added, ts, k as int, reserved),
                crate::drs::entries(rs@) == tables@[k as int]@.3,
                rs@.len() == ix.len(),
                m <= rs.len(),
                out@ == before + placed_entries(added, ix.take(m as int), dir),
            decreases rs.len() - m,
        {
            proof {
                assert(ix.take(m + 1).drop_last() =~= ix.take(m as int));
                assert(ix.take(m + 1).last() == ix[m as int]);
                assert(crate::drs::entries(rs@)[m as int] == rs@[m as int]@);
            }
            rs[m].write_to(out);
            m = m + 1;
        }
        proof {
            assert(ix.take(ix.len() as int) =~= ix);
            assert(ts.take(k + 1).drop_last() =~= ts.take(k as int));
            assert(ts.take(k + 1).last() == ts[k as int]);
        }
        k = k + 1;
    }
    assert(ts.take(ts.len() as int) =~= ts);
}

proof fn lemma_header_len(h: HeaderFields)
    requires
        h.0.len() == 40,
        h.1.len() == 4,
        h.2.len() == 12,
    ensures
        header_bytes(h).len() == 64,
        header_bytes(h).take(56) == h.0 + h.1 + h.2,
        header_bytes(h).skip(60) == le_bytes(h.4 as nat, 4),
{
    lemma_pow256_values();
    crate::codec::lemma_le_bytes_len(h.3 as nat, 4);
    crate::codec::lemma_le_bytes_len(h.4 as nat, 4);
    assert(header_bytes(h).take(56) =~= h.0 + h.1 + h.2);
    assert(header_bytes(h).skip(60) =~= le_bytes(h.4 as nat, 4));
}

impl DRSWriter {
    /// Finishes an archive with a reserved directory: the number of tables goes into the
    /// header and the directory into the reserved room.
    fn close_reserved(self) -> (out: Vec<u8>)
        requires
            self.wf(),
            self@.0 matches Some((rt, rf)) && tables_of(self@.1).len() <= rt,
        ensures
            self@.0 matches Some((rt, rf)) && out@ == reserve_archive(rt, rf, self@.1),
    {
        let ghost added = self.added@;
        let ghost ts = tables_of(added);
        let ghost reserved = self.reserved@;
        let ghost rt = reserved->Some_0.0;
        let ghost rf = reserved->Some_0.1;
        let ghost dir = 64 + 12 * (rt + rf);
        let mut output = self.output;
        proof {
            lemma_tables_of(added);
            lemma_pow256_values();
            assert(default_banner().len() == 40);
            assert(default_version().len() == 4);
            assert(default_password().len() == 12);
            assert forall|k: int| 0 <= k < ts.len() implies (#[trigger] ts[k]).0.len() == 4 by {
                lemma_filter_bounds(added, ts[k].0);
                assert(ts[k].1.len() > 0);
                assert(ts[k].1 == filter_indices(added, ts[k].0));
                let i = ts[k].1[0];
                assert(added[i].0 == ts[k].0);
            }
            lemma_header_len(written_header(0, dir as nat));
            lemma_header_len(written_header(ts.len(), dir as nat));
            crate::codec::lemma_le_bytes_len(ts.len() as u32 as nat, 4);
            lemma_table_entries_len(ts, (64 + 12 * ts.len()) as int);
            lemma_reserve_entries_len(added, ts, dir);
        }
        let nt = self.tables.len();
        let mut count_bytes: Vec<u8> = Vec::new();
        put_u32_le(&mut count_bytes, nt as u32);
        let ghost before = output@;
        overwrite(&mut output, 56, count_bytes.as_slice());
        let ghost zeros_data = Seq::new((dir - 64) as nat, |i: int| 0u8) + added_data(added);
        proof {
            assert(before =~= header_bytes(written_header(0, dir as nat)) + zeros_data);
            assert(before.take(56) =~= header_bytes(written_header(0, dir as nat)).take(56));
            assert(before.skip(60) =~= header_bytes(written_header(0, dir as nat)).skip(60) + zeros_data);
            assert(output@ =~= header_bytes(written_header(ts.len(), dir as nat)) + zeros_data);
        }
        let mut dir_bytes: Vec<u8> = Vec::new();
        write_table_entries(&self.tables, 64 + 12 * (nt as u32), &mut dir_bytes, Ghost(added), Ghost(reserved));
        write_held_entries(&self.tables, &mut dir_bytes, Ghost(added), Ghost(reserved));
        let ghost mid = output@;
        overwrite(&mut output, 64, dir_bytes.as_slice());
        proof {
            let hb = header_bytes(written_header(ts.len(), dir as nat));
            let zs = Seq::new((dir - 64 - 12 * (ts.len() + added.len())) as nat, |i: int| 0u8);
            assert(mid.take(64) =~= hb);
            assert(mid.skip(64 + dir_bytes@.len() as int) =~= zs + added_data(added));
            assert(output@ =~= reserve_archive(rt, rf, added));
        }
        output
    }
}


proof fn lemma_data_prefix(added: Seq<Added>, ix: Seq<int>, m: int)
    requires
        0 <= m <= ix.len(),
    ensures
        data_bytes(added, ix.take(m)).len() <= data_bytes(added, ix).len(),
    decreases ix.len() - m,
{
    if m < ix.len() {
        lemma_data_prefix(added, ix, m + 1);
        assert(ix.take(m + 1).drop_last() =~= ix.take(m));
    } else {
        assert(ix.take(m) =~= ix);
    }
}

proof fn lemma_tables_data_prefix(added: Seq<Added>, ts: Grouped, k: int)
    requires
        0 <= k <= ts.len(),
    ensures
        tables_data(added, ts.take(k)).len() <= tables_data(added, ts).len(),
    decreases ts.len() - k,
{
    if k < ts.len() {
        lemma_tables_data_prefix(added, ts, k + 1);
        assert(ts.take(k + 1).drop_last() =~= ts.take(k));
    } else {
        assert(ts.take(k) =~= ts);
    }
}

/// Writes the resource entries of the writer's tables, table after table, with their bytes
/// placed one after another from `dir` on.
fn write_memory_entries(
    tables: &Vec<DRSTable>,
    dir: u32,
    out: &mut Vec<u8>,
    Ghost(added): Ghost<Seq<Added>>,
)
    requires
        tables@.len() == tables_of(added).len(),
        forall|k: int|
            0 <= k < tables@.len() ==> table_written(
                #[trigger] tables@[k]@,
                added,
                tables_of(added),
                k,
                None,
            ),
        dir + tables_data(added, tables_of(added)).len() <= u32::MAX,
    ensures
        final(out)@ == old(out)@ + memory_entries(added, tables_of(added), dir as int),
{
    let ghost ts = tables_of(added);
    let mut file_offset: u32 = dir;
    let mut k: usize = 0;
    while k < tables.len()
        invariant
            ts == tables_of(added),
            tables@.len() == ts.len(),
            forall|k: int| 0 <= k < tables@.len() ==> table_written(#[trigger] tables@[k]@, added, ts, k, None),
            dir + tables_data(added, ts).len() <= u32::MAX,
            k <= tables@.len(),
            file_offset == dir + tables_data(added, ts.take(k as int)).len(),
            out@ == old(out)@ + memory_entries(added, ts.take(k as int), dir as int),
        decreases tables.len() - k,
    {
        let rs = tables[k].resources();
        let ghost before = out@;
        let ghost ix = ts[k as int].1;
        let ghost off = dir + tables_data(added, ts.take(k as int)).len();
        proof {
            assert(tables@[k as int]@ == tables[k as int]@);
            assert(crate::drs::entries(rs@).len() == rs@.len());
            assert(ts.take(k + 1).drop_last() =~= ts.take(k as int));
            assert(ts.take(k + 1).last() == ts[k as int]);
            lemma_tables_data_prefix(added, ts, k + 1);
        }
        let mut m: usize = 0;
        while m < rs.len()
            invariant
                0 <= k < ts.len(),
                ix == ts[k as int].1,
                table_written(tables@[k as int]@, added, ts, k as int, None),
                crate::drs::entries(rs@) == tables@[k as int]@.3,
                rs@.len() == ix.len(),
                off + data_bytes(added, ix).len() <= u32::MAX,
                m <= rs.len(),
                file_offset == off + data_bytes(added, ix.take(m as int)).len(),
                out@ == before + entries_of(added, ix.take(m as int), off),
            decreases rs.len() - m,
        {
            proof {
                assert(ix.take(m + 1).drop_last() =~= ix.take(m as int));
                assert(ix.take(m + 1).last() == ix[m as int]);
                assert(crate::drs::entries(rs@)[m as int] == rs@[m as int]@);
                lemma_data_prefix(added, ix, m + 1);
            }
            let r = &rs[m];
            put_u32_le(out, r.id);
            put_u32_le(out, file_offset);
            put_u32_le(out, r.size);
            file_offset = file_offset + r.size;
            m = m + 1;
            proof {
                assert(out@ =~= before + entries_of(added, ix.take(m as int), off));
            }
        }
        proof {
            assert(ix.take(ix.len() as int) =~= ix);
        }
        k = k + 1;
    }
    assert(ts.take(ts.len() as int) =~= ts);
}


/// Writes the bytes kept by the in-memory strategy, table after table: for each table, the
/// kept files of its type, in the order in which they were added.
fn write_memory_data(
    tables: &Vec<DRSTable>,
    kept: &Vec<(ResourceType, Vec<u8>)>,
    out: &mut Vec<u8>,
    Ghost(added): Ghost<Seq<Added>>,
)
    requires
        tables@.len() == tables_of(added).len(),
        forall|k: int|
            0 <= k < tables@.len() ==> table_written(
                #[trigger] tables@[k]@,
                added,
                tables_of(added),
                k,
                None,
            ),
        grouped_wf(added, tables_of(added)),
        kept@.len() == added.len(),
        forall|j: int|
            0 <= j < added.len() ==> (#[trigger] kept@[j]).0@ == added[j].0 && kept@[j].1@
                == added[j].2,
    ensures
        final(out)@ == old(out)@ + tables_data(added, tables_of(added)),
{
    let ghost ts = tables_of(added);
    let mut k: usize = 0;
    while k < tables.len()
        invariant
            ts == tables_of(added),
            tables@.len() == ts.len(),
            forall|k: int| 0 <= k < tables@.len() ==> table_written(#[trigger] tables@[k]@, added, ts, k, None),
            grouped_wf(added, ts),
            kept@.len() == added.len(),
            forall|j: int|
                0 <= j < added.len() ==> (#[trigger] kept@[j]).0@ == added[j].0 && kept@[j].1@
                    == added[j].2,
            k <= tables@.len(),
            out@ == old(out)@ + tables_data(added, ts.take(k as int)),
        decreases tables.len() - k,
    {
        let ty = tables[k].resource_type;
        let num = tables[k].len();
        let ghost before = out@;
        proof {
            assert(tables@[k as int]@ == tables[k as int]@);
            assert(ts[k as int].1 == filter_indices(added, ty@));
        }
        let mut c: usize = 0;
        let mut j: usize = 0;
        while j < kept.len()
            invariant
                kept@.len() == added.len(),
                forall|j: int|
                    0 <= j < added.len() ==> (#[trigger] kept@[j]).0@ == added[j].0 && kept@[j].1@
                        == added[j].2,
                num == filter_indices(added, ty@).len(),
                j <= kept.len(),
                c == filter_indices(added.take(j as int), ty@).len(),
                out@ == before + data_bytes(added, filter_indices(added.take(j as int), ty@)),
            decreases kept.len() - j,
        {
            proof {
                assert(added.take(j + 1).drop_last() =~= added.take(j as int));
                assert(added.take(j + 1).last() == added[j as int]);
                lemma_filter_prefix(added, ty@, j + 1);
            }
            let entry = &kept[j];
            if entry.0.same(&ty) && c < num {
                push_bytes(out, entry.1.as_slice());
                c = c + 1;
                proof {
                    let f = filter_indices(added.take(j as int), ty@);
                    assert(f.push(j as int).drop_last() =~= f);
                }
            }
            j = j + 1;
        }
        proof {
            assert(added.take(added.len() as int) =~= added);
            assert(ts.take(k + 1).drop_last() =~= ts.take(k as int));
            assert(ts.take(k + 1).last() == ts[k as int]);
        }
        k = k + 1;
    }
    assert(ts.take(ts.len() as int) =~= ts);
}

impl DRSWriter {
    /// Finishes an archive kept in memory: header, directory, then the files of each table.
    fn close_in_memory(self) -> (out: Vec<u8>)
        requires
            self.wf(),
            self@.0 is None,
            self@.1.len() < u32::MAX,
            64 + 12 * (tables_of(self@.1).len() + self@.1.len()) + tables_data(
                self@.1,
                tables_of(self@.1),
            ).len() <= u32::MAX,
        ensures
            out@ == memory_archive(self@.1),
    {
        let ghost added = self.added@;
        let ghost ts = tables_of(added);
        proof {
            lemma_tables_of(added);
            assert forall|k: int| 0 <= k < ts.len() implies (#[trigger] ts[k]).0.len() == 4 by {
                lemma_filter_bounds(added, ts[k].0);
                let i = ts[k].1[0];
                assert(added[i].0 == ts[k].0);
            }
        }
        let kept = match &self.strategy {
            Strategy::InMemory(m) => &m.resources,
            Strategy::ReserveDirectory(_) => {
                assert(false);
                return Vec::new();
            },
        };
        let nt = self.tables.len();
        let mut nr: usize = 0;
        let mut k: usize = 0;
        while k < nt
            invariant
                nt == self.tables@.len() == ts.len(),
                forall|k: int| 0 <= k < ts.len() ==> table_written(#[trigger] self.tables@[k]@, added, ts, k, None),
                count(ts) == added.len() < u32::MAX,
                k <= nt,
                nr == count(ts.take(k as int)),
            decreases nt - k,
        {
            proof {
                assert(ts.take(k + 1).drop_last() =~= ts.take(k as int));
                assert(ts.take(k + 1).last() == ts[k as int]);
                lemma_count_prefix(ts, k + 1);
                assert(self.tables@[k as int]@ == self.tables[k as int]@);
            }
            nr = nr + self.tables[k].len();
            k = k + 1;
        }
        assert(ts.take(ts.len() as int) =~= ts);
        let dir: u32 = 64 + 12 * ((nt + nr) as u32);
        let mut output = self.output;
        let mut header = self.header;
        header.set_counts(nt as u32, dir);
        header.write_to(&mut output);
        write_table_entries(&self.tables, 64 + 12 * (nt as u32), &mut output, Ghost(added), Ghost(None));
        write_memory_entries(&self.tables, dir, &mut output, Ghost(added));
        write_memory_data(&self.tables, kept, &mut output, Ghost(added));
        proof {
            assert(output@ =~= memory_archive(added));
        }
        output
    }

    /// Finish any writes that still need to happen and return the archive's bytes.
    pub fn flush(self) -> (out: Vec<u8>)
        requires
            self.wf(),
            tables_of(self@.1).len() < u32::MAX,
            match self@.0 {
                None => self@.1.len() < u32::MAX && 64 + 12 * (tables_of(self@.1).len()
                    + self@.1.len()) + tables_data(self@.1, tables_of(self@.1)).len() <= u32::MAX,
                Some((rt, rf)) => tables_of(self@.1).len() <= rt,
            },
        ensures
            out@ == match self@.0 {
                None => memory_archive(self@.1),
                Some((rt, rf)) => reserve_archive(rt, rf, self@.1),
            },
    {
        let reserve = match &self.strategy {
            Strategy::InMemory(_) => false,
            Strategy::ReserveDirectory(_) => true,
        };
        if reserve {
            self.close_reserved()
        } else {
            self.close_in_memory()
        }
    }
}


proof fn lemma_table_entries_at(ts: Grouped, base: int, k: int)
    requires
        forall|j: int| 0 <= j < ts.len() ==> (#[trigger] ts[j]).0.len() == 4,
        0 <= k < ts.len(),
    ensures
        table_entries(ts, base).subrange(12 * k, 12 * k + 12) == table_entry(
            ts[k].0,
            (base + 12 * count(ts.take(k))) as u32,
            ts[k].1.len() as u32,
        ),
    decreases ts.len(),
{
    let init = ts.drop_last();
    assert forall|j: int| 0 <= j < init.len() implies (#[trigger] init[j]).0.len() == 4 by {
        assert(init[j] == ts[j]);
    }
    lemma_table_entries_len(init, base);
    lemma_table_entries_len(ts, base);
    if k < ts.len() - 1 {
        lemma_table_entries_at(init, base, k);
        assert(init.take(k) =~= ts.take(k));
        assert(init[k] == ts[k]);
        assert(table_entries(ts, base).subrange(12 * k, 12 * k + 12) =~= table_entries(init, base).subrange(12 * k, 12 * k + 12));
    } else {
        assert(ts.take(k) =~= init);
        assert(table_entries(ts, base).subrange(12 * k, 12 * k + 12) =~= table_entry(
            ts.last().0,
            (base + 12 * count(init)) as u32,
            ts.last().1.len() as u32,
        ));
    }
}

proof fn lemma_entries_of_len(added: Seq<Added>, ix: Seq<int>, off: int)
    ensures
        entries_of(added, ix, off).len() == 12 * ix.len(),
    decreases ix.len(),
{
    if ix.len() > 0 {
        lemma_entries_of_len(added, ix.drop_last(), off);
        let a = added[ix.last()];
        lemma_resource_entry_len((a.1, (off + data_bytes(added, ix.drop_last()).len()) as u32, a.2.len() as u32));
    }
}

proof fn lemma_entries_of_at(added: Seq<Added>, ix: Seq<int>, off: int, m: int)
    requires
        0 <= m < ix.len(),
    ensures
        entries_of(added, ix, off).subrange(12 * m, 12 * m + 12) == resource_entry(
            (
                added[ix[m]].1,
                (off + data_bytes(added, ix.take(m)).len()) as u32,
                added[ix[m]].2.len() as u32,
            ),
        ),
    decreases ix.len(),
{
    let init = ix.drop_last();
    lemma_entries_of_len(added, init, off);
    lemma_entries_of_len(added, ix, off);
    if m < ix.len() - 1 {
        lemma_entries_of_at(added, init, off, m);
        assert(init.take(m) =~= ix.take(m));
        assert(entries_of(added, ix, off).subrange(12 * m, 12 * m + 12) =~= entries_of(added, init, off).subrange(12 * m, 12 * m + 12));
    } else {
        assert(ix.take(m) =~= init);
        let a = added[ix.last()];
        lemma_resource_entry_len((a.1, (off + data_bytes(added, init).len()) as u32, a.2.len() as u32));
        assert(entries_of(added, ix, off).subrange(12 * m, 12 * m + 12) =~= resource_entry(
            (a.1, (off + data_bytes(added, init).len()) as u32, a.2.len() as u32),
        ));
    }
}

proof fn lemma_memory_entries_at(added: Seq<Added>, ts: Grouped, off: int, k: int)
    requires
        0 <= k < ts.len(),
    ensures
        memory_entries(added, ts, off).len() == 12 * count(ts),
        memory_entries(added, ts, off).subrange(
            (12 * count(ts.take(k))) as int,
            (12 * count(ts.take(k)) + 12 * ts[k].1.len()) as int,
        ) == entries_of(added, ts[k].1, off + tables_data(added, ts.take(k)).len()),
    decreases ts.len(),
{
    let init = ts.drop_last();
    lemma_entries_of_len(added, ts.last().1, off + tables_data(added, init).len());
    if k < ts.len() - 1 {
        lemma_memory_entries_at(added, init, off, k);
        assert(init.take(k) =~= ts.take(k));
        assert(init[k] == ts[k]);
        lemma_count_prefix(init, k + 1);
        assert(init.take(k + 1).drop_last() =~= init.take(k));
        assert(memory_entries(added, ts, off).subrange(
            (12 * count(ts.take(k))) as int,
            (12 * count(ts.take(k)) + 12 * ts[k].1.len()) as int,
        ) =~= memory_entries(added, init, off).subrange(
            (12 * count(init.take(k))) as int,
            (12 * count(init.take(k)) + 12 * init[k].1.len()) as int,
        ));
    } else {
        assert(ts.take(k) =~= init);
        if init.len() > 0 {
            lemma_memory_entries_at(added, init, off, 0);
        } else {
            assert(memory_entries(added, init, off) == Seq::<u8>::empty());
        }
        assert(memory_entries(added, ts, off).subrange(
            (12 * count(ts.take(k))) as int,
            (12 * count(ts.take(k)) + 12 * ts[k].1.len()) as int,
        ) =~= entries_of(added, ts[k].1, off + tables_data(added, init).len()));
    }
}


proof fn lemma_data_bytes_at(added: Seq<Added>, ix: Seq<int>, m: int)
    requires
        0 <= m < ix.len(),
    ensures
        data_bytes(added, ix.take(m)).len() + added[ix[m]].2.len() <= data_bytes(added, ix).len(),
        data_bytes(added, ix).subrange(
            data_bytes(added, ix.take(m)).len() as int,
(data_bytes(added, ix.take(m)).len() + added[ix[m]].2.len()) as int,
        ) == added[ix[m]].2,
    decreases ix.len(),
{
    let init = ix.drop_last();
    if m < ix.len() - 1 {
        lemma_data_bytes_at(added, init, m);
        assert(init.take(m) =~= ix.take(m));
        assert(init[m] == ix[m]);
        assert(data_bytes(added, ix).subrange(
            data_bytes(added, ix.take(m)).len() as int,
(data_bytes(added, ix.take(m)).len() + added[ix[m]].2.len()) as int,
        ) =~= data_bytes(added, init).subrange(
            data_bytes(added, init.take(m)).len() as int,
(data_bytes(added, init.take(m)).len() + added[init[m]].2.len()) as int,
        ));
    } else {
        assert(ix.take(m) =~= init);
        assert(data_bytes(added, ix).subrange(
            data_bytes(added, ix.take(m)).len() as int,
(data_bytes(added, ix.take(m)).len() + added[ix[m]].2.len()) as int,
        ) =~= added[ix[m]].2);
    }
}

proof fn lemma_tables_data_at(added: Seq<Added>, ts: Grouped, k: int)
    requires
        0 <= k < ts.len(),
    ensures
        tables_data(added, ts.take(k)).len() + data_bytes(added, ts[k].1).len() <= tables_data(
            added,
            ts,
        ).len(),
        tables_data(added, ts).subrange(
            tables_data(added, ts.take(k)).len() as int,
(tables_data(added, ts.take(k)).len() + data_bytes(added, ts[k].1).len()) as int,
        ) == data_bytes(added, ts[k].1),
    decreases ts.len(),
{
    let init = ts.drop_last();
    if k < ts.len() - 1 {
        lemma_tables_data_at(added, init, k);
        assert(init.take(k) =~= ts.take(k));
        assert(init[k] == ts[k]);
        assert(tables_data(added, ts).subrange(
            tables_data(added, ts.take(k)).len() as int,
(tables_data(added, ts.take(k)).len() + data_bytes(added, ts[k].1).len()) as int,
        ) =~= tables_data(added, init).subrange(
            tables_data(added, init.take(k)).len() as int,
(tables_data(added, init.take(k)).len() + data_bytes(added, init[k].1).len()) as int,
        ));
    } else {
        assert(ts.take(k) =~= init);
        assert(tables_data(added, ts).subrange(
            tables_data(added, ts.take(k)).len() as int,
(tables_data(added, ts.take(k)).len() + data_bytes(added, ts[k].1).len()) as int,
        ) =~= data_bytes(added, ts[k].1));
    }
}

proof fn lemma_u32_field(d: Seq<u8>, p: int, v: u32)
    requires
        0 <= p,
        p + 4 <= d.len(),
        d.subrange(p, p + 4) == le_bytes(v as nat, 4),
    ensures
        crate::codec::le_at(d, p, 4) == v,
{
    lemma_pow256_values();
    crate::codec::lemma_le_roundtrip(v as nat, 4);
}

proof fn lemma_table_entry_read(d: Seq<u8>, p: int, ty: Seq<u8>, off: u32, num: u32)
    requires
        0 <= p,
        p + 12 <= d.len(),
        ty.len() == 4,
        d.subrange(p, p + 12) == table_entry(ty, off, num),
    ensures
        crate::drs::table_entry_at(d, p) == (ty, off, num),
{
    lemma_pow256_values();
    crate::codec::lemma_le_bytes_len(off as nat, 4);
    crate::codec::lemma_le_bytes_len(num as nat, 4);
    let w = d.subrange(p, p + 12);
    assert(d.subrange(p, p + 4) =~= w.subrange(0, 4));
    assert(d.subrange(p + 4, p + 8) =~= w.subrange(4, 8));
    assert(d.subrange(p + 8, p + 12) =~= w.subrange(8, 12));
    assert(w.subrange(0, 4) =~= ty);
    assert(w.subrange(4, 8) =~= le_bytes(off as nat, 4));
    assert(w.subrange(8, 12) =~= le_bytes(num as nat, 4));
    lemma_u32_field(d, p + 4, off);
    lemma_u32_field(d, p + 8, num);
}

proof fn lemma_resource_entry_read(d: Seq<u8>, p: int, e: (u32, u32, u32))
    requires
        0 <= p,
        p + 12 <= d.len(),
        d.subrange(p, p + 12) == resource_entry(e),
    ensures
        crate::drs::resource_entry_at(d, p) == e,
{
    lemma_pow256_values();
    crate::codec::lemma_le_bytes_len(e.0 as nat, 4);
    crate::codec::lemma_le_bytes_len(e.1 as nat, 4);
    crate::codec::lemma_le_bytes_len(e.2 as nat, 4);
    let w = d.subrange(p, p + 12);
    assert(d.subrange(p, p + 4) =~= w.subrange(0, 4));
    assert(d.subrange(p + 4, p + 8) =~= w.subrange(4, 8));
    assert(d.subrange(p + 8, p + 12) =~= w.subrange(8, 12));
    assert(w.subrange(0, 4) =~= le_bytes(e.0 as nat, 4));
    assert(w.subrange(4, 8) =~= le_bytes(e.1 as nat, 4));
    assert(w.subrange(8, 12) =~= le_bytes(e.2 as nat, 4));
    lemma_u32_field(d, p, e.0);
    lemma_u32_field(d, p + 4, e.1);
    lemma_u32_field(d, p + 8, e.2);
}


proof fn lemma_resources_before_written(es: Seq<(Seq<u8>, u32, u32)>, ts: Grouped, j: int)
    requires
        0 <= j <= ts.len(),
        es.len() == ts.len(),
        forall|i: int| 0 <= i < ts.len() ==> (#[trigger] es[i]).2 == ts[i].1.len(),
    ensures
        crate::drs::read::resources_before(es, j) == count(ts.take(j)),
    decreases j,
{
    if j > 0 {
        lemma_resources_before_written(es, ts, j - 1);
        assert(ts.take(j).drop_last() =~= ts.take(j - 1));
        assert(ts.take(j).last() == ts[j - 1]);
    }
}

/// The parts of an archive written in memory and their lengths.
proof fn lemma_memory_parts(added: Seq<Added>)
    requires
        forall|i: int| 0 <= i < added.len() ==> (#[trigger] added[i]).0.len() == 4,
    ensures
        ({
            let ts = tables_of(added);
            let dir = 64 + 12 * (ts.len() + added.len());
            let hb = header_bytes(written_header(ts.len(), dir as nat));
            let te = table_entries(ts, (64 + 12 * ts.len()) as int);
            let me = memory_entries(added, ts, dir as int);
            let td = tables_data(added, ts);
            &&& memory_archive(added) == hb + te + me + td
            &&& hb.len() == 64
            &&& te.len() == 12 * ts.len()
            &&& me.len() == 12 * added.len()
            &&& count(ts) == added.len()
            &&& grouped_wf(added, ts)
            &&& forall|i: int| 0 <= i < ts.len() ==> (#[trigger] ts[i]).0.len() == 4
            &&& hb.subrange(56, 60) == le_bytes(ts.len() as u32 as nat, 4)
        }),
{
    lemma_pow256_values();
    let ts = tables_of(added);
    let nt = ts.len();
    let dir = 64 + 12 * (nt + added.len());
    lemma_tables_of(added);
    assert forall|i: int| 0 <= i < ts.len() implies (#[trigger] ts[i]).0.len() == 4 by {
        lemma_filter_bounds(added, ts[i].0);
        let x = ts[i].1[0];
        assert(added[x].0 == ts[i].0);
    }
    let h = written_header(nt, dir as nat);
    assert(default_banner().len() == 40);
    assert(default_version().len() == 4);
    assert(default_password().len() == 12);
    lemma_header_len(h);
    lemma_table_entries_len(ts, (64 + 12 * nt) as int);
    if nt > 0 {
        lemma_memory_entries_at(added, ts, dir as int, 0);
    } else {
        assert(memory_entries(added, ts, dir as int) == Seq::<u8>::empty());
    }
    crate::codec::lemma_le_bytes_len(nt as u32 as nat, 4);
    crate::codec::lemma_le_bytes_len(dir as u32 as nat, 4);
    assert(header_bytes(h).subrange(56, 60) =~= le_bytes(nt as u32 as nat, 4));
}

/// The header and table entries of an archive written in memory read back as written.
proof fn lemma_memory_tables_read(added: Seq<Added>)
    requires
        forall|i: int| 0 <= i < added.len() ==> (#[trigger] added[i]).0.len() == 4,
        64 + 12 * (tables_of(added).len() + added.len()) <= u32::MAX,
    ensures
        ({
            let d = memory_archive(added);
            let ts = tables_of(added);
            let es = crate::drs::read::table_entries(d, ts.len());
            &&& crate::drs::read::num_tables(d) == ts.len()
            &&& crate::drs::read::drs_readable(d)
            &&& forall|i: int|
                0 <= i < ts.len() ==> #[trigger] es[i] == (
                    ts[i].0,
                    (64 + 12 * ts.len() + 12 * count(ts.take(i))) as u32,
                    ts[i].1.len() as u32,
                )
            &&& forall|j: int|
                0 <= j <= ts.len() ==> #[trigger] crate::drs::read::resources_before(es, j) == count(
                    ts.take(j),
                )
        }),
{
    lemma_memory_parts(added);
    let ts = tables_of(added);
    let nt = ts.len();
    let dir = 64 + 12 * (nt + added.len());
    let hb = header_bytes(written_header(nt, dir as nat));
    let te = table_entries(ts, (64 + 12 * nt) as int);
    let d = memory_archive(added);
    assert(d.subrange(56, 60) =~= hb.subrange(56, 60));
    lemma_u32_field(d, 56, nt as u32);
    let es = crate::drs::read::table_entries(d, nt);
    assert forall|i: int| 0 <= i < nt implies #[trigger] es[i] == (
        ts[i].0,
        (64 + 12 * nt + 12 * count(ts.take(i))) as u32,
        ts[i].1.len() as u32,
    ) by {
        lemma_table_entries_at(ts, (64 + 12 * nt) as int, i);
        assert(d.subrange(64 + 12 * i, 64 + 12 * i + 12) =~= te.subrange(12 * i, 12 * i + 12));
        lemma_table_entry_read(
            d,
            64 + 12 * i,
            ts[i].0,
            (64 + 12 * nt + 12 * count(ts.take(i))) as u32,
            ts[i].1.len() as u32,
        );
    }
    assert forall|i: int| 0 <= i < ts.len() implies (#[trigger] es[i]).2 == ts[i].1.len() by {
        lemma_count_prefix(ts, i + 1);
        assert(ts.take(i + 1).drop_last() =~= ts.take(i));
        assert(ts.take(i + 1).last() == ts[i]);
        assert(ts[i].1.len() <= added.len());
    }
    assert forall|j: int| 0 <= j <= ts.len() implies #[trigger] crate::drs::read::resources_before(es, j)
        == count(ts.take(j)) by {
        lemma_resources_before_written(es, ts, j);
    }
    assert(ts.take(nt as int) =~= ts);
}

/// An archive that the in-memory strategy writes reads back with every table of the added
/// resources: its type, its number of resources, and for each resource its ID and, where
/// its entry points, its bytes.
#[verifier::spinoff_prover]
#[verifier::rlimit(60)]
pub proof fn law_memory_archive_read(added: Seq<Added>, k: int, m: int)
    requires
        forall|i: int| 0 <= i < added.len() ==> (#[trigger] added[i]).0.len() == 4,
        64 + 12 * (tables_of(added).len() + added.len()) + tables_data(added, tables_of(added)).len()
            <= u32::MAX,
        0 <= k < tables_of(added).len(),
        0 <= m < tables_of(added)[k].1.len(),
    ensures
        ({
            let d = memory_archive(added);
            let ts = tables_of(added);
            let t = crate::drs::read::table_of(d, k);
            &&& crate::drs::read::drs_readable(d)
            &&& crate::drs::read::num_tables(d) == ts.len()
            &&& t.0 == ts[k].0
            &&& t.2 == ts[k].1.len()
            &&& t.3[m].0 == added[ts[k].1[m]].1
            &&& crate::drs::read::resource_bytes(d, t.3[m]) == added[ts[k].1[m]].2
        }),
{
    lemma_memory_parts(added);
    lemma_memory_tables_read(added);
    let ts = tables_of(added);
    let nt = ts.len() as int;
    let n = added.len() as int;
    let dir = 64 + 12 * (nt + n);
    let hb = header_bytes(written_header(nt as nat, dir as nat));
    let te = table_entries(ts, (64 + 12 * nt) as int);
    let me = memory_entries(added, ts, dir as int);
    let td = tables_data(added, ts);
    let d = memory_archive(added);
    let es = crate::drs::read::table_entries(d, nt as nat);
    assert(es[k] == (ts[k].0, (64 + 12 * nt + 12 * count(ts.take(k))) as u32, ts[k].1.len() as u32));
    assert(crate::drs::read::resources_before(es, k) == count(ts.take(k)));
    lemma_memory_entries_at(added, ts, dir as int, k);
    let ix = ts[k].1;
    let tk = tables_data(added, ts.take(k)).len() as int;
    let lm = data_bytes(added, ix.take(m)).len() as int;
    let ck = count(ts.take(k)) as int;
    let alen = added[ix[m]].2.len() as int;
    lemma_entries_of_at(added, ix, (dir + tk) as int, m);
    lemma_count_prefix(ts, k + 1);
    assert(ts.take(k + 1).drop_last() =~= ts.take(k));
    assert(ts.take(k + 1).last() == ts[k]);
    let q: int = 64 + 12 * nt + 12 * ck + 12 * m;
    assert(d.subrange(q, q + 12) =~= me.subrange(12 * ck + 12 * m, 12 * ck + 12 * m + 12));
    assert(me.subrange(12 * ck + 12 * m, 12 * ck + 12 * m + 12) =~= me.subrange(
        12 * ck,
        12 * ck + 12 * ix.len(),
    ).subrange(12 * m, 12 * m + 12));
    let a = added[ix[m]];
    lemma_resource_entry_read(d, q, (a.1, (dir + tk + lm) as u32, a.2.len() as u32));
    lemma_tables_data_at(added, ts, k);
    lemma_data_bytes_at(added, ix, m);
    let off = dir + tk + lm;
    assert(d.subrange(off, off + alen) =~= td.subrange(tk + lm, tk + lm + alen));
    assert(td.subrange(tk + lm, tk + lm + alen) =~= td.subrange(
        tk,
        tk + data_bytes(added, ix).len() as int,
    ).subrange(lm, lm + alen));
}

} // verus!
