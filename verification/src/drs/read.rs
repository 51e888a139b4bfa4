//! Reading `.drs` archives.
use crate::codec::{le_at, ReadError};
use crate::drs::{
    header_at, resource_entry_at, table_entry_at, table_holds, table_indexed, table_wf, DRSHeader, DRSResource,
    DRSTable, HeaderFields, ResourceType, TableView,
};
use vstd::prelude::*;

verus! {

/// The entries of the `n` tables of the archive `d`.
pub open spec fn table_entries(d: Seq<u8>, n: nat) -> Seq<(Seq<u8>, u32, u32)> {
    Seq::new(n, |i: int| table_entry_at(d, 64 + 12 * i))
}

/// The number of resources of the first `k` tables.
pub open spec fn resources_before(es: Seq<(Seq<u8>, u32, u32)>, k: int) -> nat
    decreases k,
{
    if k <= 0 {
        0
    } else {
        (resources_before(es, k - 1) + es[k - 1].2) as nat
    }
}

/// The number of tables of the archive `d`.
pub open spec fn num_tables(d: Seq<u8>) -> nat {
    le_at(d, 56, 4)
}

/// The position of the first resource entry of table `k` of the archive `d`.
pub open spec fn dictionary_pos(d: Seq<u8>, k: int) -> int {
    (64 + 12 * num_tables(d) + 12 * resources_before(table_entries(d, num_tables(d)), k)) as int
}

/// The archive `d` holds its header, its table entries and all its resource entries.
pub open spec fn drs_readable(d: Seq<u8>) -> bool {
    64 <= d.len() && dictionary_pos(d, num_tables(d) as int) <= d.len()
}

/// Table `k` of the archive `d`, as read: its entry and its resource entries.
pub open spec fn table_of(d: Seq<u8>, k: int) -> (Seq<u8>, u32, u32, Seq<(u32, u32, u32)>) {
    let e = table_entries(d, num_tables(d))[k];
    (e.0, e.1, e.2, Seq::new(e.2 as nat, |m: int| resource_entry_at(d, dictionary_pos(d, k) + 12 * m)))
}

/// The reader's view of a table matches table `k` of the archive `d`.
pub open spec fn table_read(t: TableView, d: Seq<u8>, k: int) -> bool {
    let e = table_of(d, k);
    &&& t.0 == e.0
    &&& t.1 == e.1
    &&& t.2 == e.2
    &&& t.3 == e.3
    &&& table_indexed(t)
}

/// A DRS archive reader.
#[derive(Debug)]
pub struct DRSReader {
    header: Option<DRSHeader>,
    tables: Vec<DRSTable>,
}

/// The views of a sequence of tables.
pub open spec fn tables_view(v: Seq<DRSTable>) -> Seq<TableView> {
    v.map_values(|t: DRSTable| t@)
}

impl View for DRSReader {
    /// The header, if it was read, and the tables.
    type V = (Option<HeaderFields>, Seq<TableView>);

    closed spec fn view(&self) -> (Option<HeaderFields>, Seq<TableView>) {
        (
            match self.header {
                Some(h) => Some(h@),
                None => None,
            },
            tables_view(self.tables@),
        )
    }
}

proof fn lemma_resources_before_step(es: Seq<(Seq<u8>, u32, u32)>, k: int)
    requires
        0 <= k,
    ensures
        resources_before(es, k + 1) == resources_before(es, k) + es[k].2,
{
}

proof fn lemma_resources_before_monotone(es: Seq<(Seq<u8>, u32, u32)>, j: int, k: int)
    requires
        0 <= j <= k,
    ensures
        resources_before(es, j) <= resources_before(es, k),
    decreases k - j,
{
    if j < k {
        lemma_resources_before_monotone(es, j, k - 1);
    }
}

impl DRSReader {
    /// Read an archive: its header, its tables and their resource entries.
    pub fn new(input: &[u8]) -> (r: Result<DRSReader, ReadError>)
        ensures
            r is Ok <==> drs_readable(input@),
            r matches Ok(drs) ==> drs@.0 == Some(header_at(input@)) && drs@.1.len() == num_tables(
                input@,
            ) && forall|k: int| 0 <= k < drs@.1.len() ==> table_read(#[trigger] drs@.1[k], input@, k),
            r matches Err(e) ==> e == ReadError::UnexpectedEof,
    {
        let ghost d = input@;
        let header = DRSHeader::from(input)?;
        let n = header.num_resource_types;
        let ghost es = table_entries(d, n as nat);
        let mut tables: Vec<DRSTable> = Vec::new();
        let mut k: u32 = 0;
        let mut p: usize = 64;
        proof {
            crate::codec::lemma_pow256_values();
            crate::codec::lemma_le_value_bound(d.subrange(56, 60));
            assert(n == num_tables(d));
        }
        // The table entries come first; then, in table order, their resource entries.
        if (input.len() - 64) / 12 < n as usize {
            proof {
                lemma_resources_before_monotone(es, 0, n as int);
            }
            return Err(ReadError::UnexpectedEof);
        }
        p = 64 + 12 * (n as usize);
        while k < n
            invariant
                d == input@,
                64 <= input.len(),
                n == num_tables(d),
                es == table_entries(d, n as nat),
                64 + 12 * n <= input.len(),
                k <= n,
                p == dictionary_pos(d, k as int),
                p <= input.len(),
                tables@.len() == k,
                forall|j: int| 0 <= j < k ==> table_read(#[trigger] tables_view(tables@)[j], d, j),
                header@ == header_at(d),
            decreases n - k,
        {
            let (mut table, _q) = match DRSTable::from(input, 64 + 12 * (k as usize)) {
                Ok(x) => x,
                Err(e) => {
                    return Err(e);
                },
            };
            proof {
                lemma_resources_before_step(es, k as int);
            }
            let q = match table.read_resources(input, p) {
                Ok(q) => q,
                Err(e) => {
                    proof {
                        lemma_resources_before_monotone(es, k + 1, n as int);
                    }
                    return Err(e);
                },
            };
            let ghost before = tables@;
            tables.push(table);
            proof {
                assert(tables_view(tables@) =~= tables_view(before).push(table@));
                assert(es[k as int] == table_entry_at(d, 64 + 12 * k));
                assert(table@.3 =~= table_of(d, k as int).3);
            }
            p = q;
            k = k + 1;
        }
        proof {
            assert forall|j: int| 0 <= j < tables@.len() implies table_wf(#[trigger] tables@[j]@) by {
                assert(tables_view(tables@)[j] == tables@[j]@);
            }
        }
        Ok(DRSReader { header: Some(header), tables })
    }

    /// What every reader keeps: each table's sorted IDs index its resources.
    #[verifier::type_invariant]
    closed spec fn wf(&self) -> bool {
        forall|k: int| 0 <= k < self.tables@.len() ==> table_wf(#[trigger] self.tables@[k]@)
    }

    /// Get the table for the given resource type: the first one of that type.
    pub fn get_table(&self, resource_type: ResourceType) -> (r: Option<&DRSTable>)
        ensures
            match first_table_from(self@.1, resource_type@, 0) {
                Some(k) => r matches Some(t) && t@ == self@.1[k],
                None => r is None,
            },
    {
        let mut k: usize = 0;
        while k < self.tables.len()
            invariant
                k <= self.tables.len(),
                first_table_from(self@.1, resource_type@, 0) == first_table_from(
                    self@.1,
                    resource_type@,
                    k as int,
                ),
            decreases self.tables.len() - k,
        {
            let t = &self.tables[k];
            assert(self@.1[k as int] == t@);
            if t.resource_type.same(&resource_type) {
                return Some(t);
            }
            k = k + 1;
        }
        None
    }

    /// Get a resource of a given type and ID: from the first table of the type, a resource
    /// with that ID.
    pub fn get_resource(&self, resource_type: ResourceType, id: u32) -> (r: Option<&DRSResource>)
        ensures
            match first_table_from(self@.1, resource_type@, 0) {
                Some(k) => found_in(self@.1[k], id, r),
                None => r is None,
            },
    {
        proof {
            use_type_invariant(self);
        }
        match self.get_table(resource_type) {
            Some(table) => {
                proof {
                    let k = first_table_from(self@.1, resource_type@, 0)->Some_0;
                    lemma_first_table_in(self@.1, resource_type@, 0);
                    assert(self.tables@[k]@ == self@.1[k]);
                }
                table.get_resource(id)
            },
            None => None,
        }
    }

    /// Get the type of a resource with the given ID: that of the first table that holds it.
    pub fn get_resource_type(&self, id: u32) -> (r: Option<ResourceType>)
        ensures
            match first_holding_from(self@.1, id, 0) {
                Some(k) => r matches Some(t) && t@ == self@.1[k].0,
                None => r is None,
            },
    {
        proof {
            use_type_invariant(self);
        }
        let mut k: usize = 0;
        while k < self.tables.len()
            invariant
                k <= self.tables.len(),
                forall|j: int| 0 <= j < self.tables@.len() ==> table_wf(#[trigger] self.tables@[j]@),
                first_holding_from(self@.1, id, 0) == first_holding_from(self@.1, id, k as int),
            decreases self.tables.len() - k,
        {
            let t = &self.tables[k];
            assert(self@.1[k as int] == t@);
            if t.get_resource(id).is_some() {
                return Some(t.resource_type);
            }
            k = k + 1;
        }
        None
    }

    /// Read a resource from the archive `input`: the bytes that its entry points at, as far
    /// as the archive goes.
    pub fn read_resource(&self, input: &[u8], resource_type: ResourceType, id: u32) -> (r: Result<Vec<u8>, DRSError>)
        ensures
            match first_table_from(self@.1, resource_type@, 0) {
                Some(k) => if table_holds(self@.1[k], id) {
                    r matches Ok(v) && exists|i: int|
                        0 <= i < self@.1[k].3.len() && self@.1[k].3[i].0 == id && v@ == resource_bytes(
                            input@,
                            #[trigger] self@.1[k].3[i],
                        )
                } else {
                    r == Err::<Vec<u8>, DRSError>(DRSError::NotFound)
                },
                None => r == Err::<Vec<u8>, DRSError>(DRSError::NotFound),
            },
    {
        match self.get_resource(resource_type, id) {
            Some(res) => {
                let (_, offset, size) = (res.id, res.offset, res.size);
                let n = input.len();
                let start: usize = if (offset as usize) < n { offset as usize } else { n };
                let end: usize = if (size as usize) <= n - start { start + size as usize } else { n };
                let mut v: Vec<u8> = Vec::new();
                let mut i: usize = start;
                while i < end
                    invariant
                        start <= i <= end <= n == input.len(),
                        v@ == input@.subrange(start as int, i as int),
                    decreases end - i,
                {
                    v.push(input[i]);
                    i = i + 1;
                    assert(v@ =~= input@.subrange(start as int, i as int));
                }
                proof {
                    let k = first_table_from(self@.1, resource_type@, 0)->Some_0;
                    let t = self@.1[k];
                    let w = choose|w: int| 0 <= w < t.3.len() && t.3[w] == res@;
                    assert(t.3[w].0 == id);
                    assert(v@ == resource_bytes(input@, t.3[w]));
                }
                Ok(v)
            },
            None => Err(DRSError::NotFound),
        }
    }

    /// The tables in this DRS archive.
    pub fn tables(&self) -> (t: &[DRSTable])
        ensures
            tables_view(t@) == self@.1,
    {
        self.tables.as_slice()
    }
}

/// An error of reading a resource.
#[derive(Debug, Clone, Copy, PartialEq, Eq)]
pub enum DRSError {
    /// There is no resource of that type and ID in the archive.
    NotFound,
}

/// The bytes of a resource entry's range in the archive `d`, cut off where `d` ends.
pub open spec fn resource_bytes(d: Seq<u8>, e: (u32, u32, u32)) -> Seq<u8> {
    let start = if e.1 < d.len() {
        e.1 as int
    } else {
        d.len() as int
    };
    let end = if start + e.2 <= d.len() {
        start + e.2
    } else {
        d.len() as int
    };
    d.subrange(start, end)
}

/// What a table gives when it is searched for `id`: one of its resources at a position
/// where its sorted IDs hold `id`, or nothing when they do not hold it.
pub open spec fn found_in(t: TableView, id: u32, r: Option<&DRSResource>) -> bool {
    match r {
        Some(res) => table_holds(t, id) && res@.0 == id && t.3.contains(res@),
        None => !table_holds(t, id),
    }
}

/// The first table, from position `from` on, of type `ty`.
pub open spec fn first_table_from(ts: Seq<TableView>, ty: Seq<u8>, from: int) -> Option<int>
    decreases ts.len() - from,
{
    if from < 0 || from >= ts.len() {
        None
    } else if ts[from].0 == ty {
        Some(from)
    } else {
        first_table_from(ts, ty, from + 1)
    }
}

/// The first table, from position `from` on, whose sorted IDs hold `id`.
pub open spec fn first_holding_from(ts: Seq<TableView>, id: u32, from: int) -> Option<int>
    decreases ts.len() - from,
{
    if from < 0 || from >= ts.len() {
        None
    } else if table_holds(ts[from], id) {
        Some(from)
    } else {
        first_holding_from(ts, id, from + 1)
    }
}

proof fn lemma_first_table_in(ts: Seq<TableView>, ty: Seq<u8>, from: int)
    ensures
        first_table_from(ts, ty, from) matches Some(k) ==> from <= k < ts.len() && ts[k].0 == ty,
    decreases ts.len() - from,
{
    if 0 <= from < ts.len() && ts[from].0 != ty {
        lemma_first_table_in(ts, ty, from + 1);
    }
}

} // verus!
