//! `.drs` resource archives of the Genie Engine, used by Age of Empires 1/2 and
//! Star Wars: Galactic Battlegrounds.
//!
//! An archive holds tables, each of which holds resources of a single type. Resources are
//! identified by a numeric identifier.
//!
//! An archive starts with a 64-byte header: a 40-byte banner, a 4-byte version, a 12-byte
//! password, the number of tables and the size of the directory. The directory follows: a
//! 12-byte entry per table (type, offset of its resource entries, number of resources), then
//! a 12-byte entry per resource (id, offset, size). The resources' bytes come after it.
pub mod read;
pub mod write;

pub use read::DRSReader;
pub use write::{DRSWriter, InMemoryStrategy, ReserveDirectoryStrategy, Strategy};

use crate::codec::{
    lemma_pow256_values, le_at, le_bytes, push_bytes, put_u32_le, read_bytes, read_u32_le,
    ReadError,
};
use crate::lang::encoding::decode_utf8_text;
use crate::lang::syntax::{trim, trimmed};
use crate::text::{chars_of, string_of};
use sorted_vec::SortedVec;
use vstd::prelude::*;
use vstd::string::StringSliceAdditionalSpecFns;
use vstd::utf8::{decode_utf8, valid_utf8};

verus! {

/// A resource type name.
///
/// In a .drs archive, type names are represented as 4 bytes. They are laid out in reverse order and
/// padded with ASCII space characters (`' '`). For example, the "slp" resource type is stored as `" pls"`.
#[derive(Debug, Clone, Copy, PartialEq, Eq)]
pub struct ResourceType([u8; 4]);

impl View for ResourceType {
    /// The four bytes as stored in an archive.
    type V = Seq<u8>;

    closed spec fn view(&self) -> Seq<u8> {
        self.0@
    }
}

/// The bytes of a type name as stored: padded with spaces to four bytes, then reversed.
pub open spec fn stored_type(name: Seq<u8>) -> Seq<u8> {
    let padded = name + Seq::new((4 - name.len()) as nat, |i: int| 0x20u8);
    Seq::new(4, |i: int| padded[3 - i])
}

/// The four stored bytes in reading order.
pub open spec fn unreversed(b: Seq<u8>) -> Seq<u8> {
    Seq::new(4, |i: int| b[3 - i])
}

/// An error occurred while parsing a resource type.
///
/// This may be caused by:
///   - The input string not being 4 characters long
#[derive(Debug)]
pub struct ParseResourceTypeError;

impl ResourceType {
    /// A type from its four stored bytes.
    pub fn from_array(u: [u8; 4]) -> (t: Self)
        ensures
            t@ == u@,
    {
        ResourceType(u)
    }

    /// Parse a resource type from a byte slice of at most four bytes.
    pub fn from_bytes(u: &[u8]) -> (t: Self)
        requires
            u.len() <= 4,
        ensures
            t@ == stored_type(u@),
    {
        let mut bytes: [u8; 4] = [0x20u8; 4];
        let n = u.len();
        let mut i: usize = 0;
        while i < n
            invariant
                n == u.len() <= 4,
                i <= n,
                forall|j: int| 0 <= j < i ==> bytes@[3 - j] == u@[j],
                forall|k: int| 0 <= k < 4 - i ==> bytes@[k] == 0x20u8,
                bytes@.len() == 4,
            decreases n - i,
        {
            bytes[3 - i] = u[i];
            i = i + 1;
        }
        let t = ResourceType(bytes);
        assert(t@ =~= stored_type(u@));
        t
    }

    /// Parse a resource type from a string of at most four bytes.
    pub fn from_str_bytes(s: &str) -> (t: Self)
        requires
            s.spec_bytes().len() <= 4,
        ensures
            t@ == stored_type(s.spec_bytes()),
    {
        ResourceType::from_bytes(s.as_bytes())
    }

    /// Parse a resource type from a string, with error handling: longer names than four
    /// bytes are refused.
    pub fn parse(s: &str) -> (r: Result<Self, ParseResourceTypeError>)
        ensures
            r is Ok <==> s.spec_bytes().len() <= 4,
            r matches Ok(t) ==> t@ == stored_type(s.spec_bytes()),
    {
        let bytes = s.as_bytes();
        if bytes.len() > 4 {
            Err(ParseResourceTypeError)
        } else {
            Ok(ResourceType::from_bytes(bytes))
        }
    }

    /// The name of the type: the stored bytes in reading order, as UTF-8, without the
    /// padding (and any other white space) around it.
    pub fn to_string(&self) -> (s: String)
        requires
            valid_utf8(unreversed(self@)),
        ensures
            s@ == trimmed(decode_utf8(unreversed(self@))),
    {
        let b = self.0;
        let bytes: [u8; 4] = [b[3], b[2], b[1], b[0]];
        assert(bytes@ =~= unreversed(self@));
        let text = match decode_utf8_text(&bytes) {
            Some(t) => t,
            None => {
                assert(false);
                return String::new();
            },
        };
        let chars = chars_of(text);
        let t = trim(chars.as_slice());
        string_of(t.as_slice())
    }

    /// Compares two types.
    pub fn same(&self, other: &ResourceType) -> (b: bool)
        ensures
            b == (self@ == other@),
    {
        let a = self.0;
        let c = other.0;
        let r = a[0] == c[0] && a[1] == c[1] && a[2] == c[2] && a[3] == c[3];
        assert(r ==> self@ =~= other@);
        r
    }

    /// Appends the four stored bytes.
    fn write_to(&self, out: &mut Vec<u8>)
        ensures
            final(out)@ == old(out)@ + self@,
    {
        push_bytes(out, &self.0);
    }
}

/// A stored type name has four bytes.
pub proof fn lemma_type_len(t: ResourceType)
    ensures
        t@.len() == 4,
{
}

impl From<[u8; 4]> for ResourceType {
    fn from(u: [u8; 4]) -> (t: Self)
        ensures
            t@ == u@,
    {
        ResourceType(u)
    }
}

impl vstd::std_specs::convert::FromSpecImpl<[u8; 4]> for ResourceType {
    /// The result is given by the `ensures` of `from`.
    open spec fn obeys_from_spec() -> bool {
        false
    }

    open spec fn from_spec(u: [u8; 4]) -> Self {
        choose|t: ResourceType| t@ == u@
    }
}

impl core::str::FromStr for ResourceType {
    type Err = ParseResourceTypeError;

    /// Parse a resource type from a string, with error handling (see `parse`).
    fn from_str(s: &str) -> Result<Self, Self::Err> {
        ResourceType::parse(s)
    }
}

/// A single resource in a DRS archive.
#[derive(Debug)]
pub struct DRSResource {
    /// The resource ID.
    pub id: u32,
    /// The offset into the DRS archive where the resource can be found.
    offset: u32,
    /// The size in bytes of the resource.
    pub size: u32,
}

impl View for DRSResource {
    /// The ID, offset and size.
    type V = (u32, u32, u32);

    closed spec fn view(&self) -> (u32, u32, u32) {
        (self.id, self.offset, self.size)
    }
}

/// The 12-byte entry of a resource: ID, offset and size.
pub open spec fn resource_entry(r: (u32, u32, u32)) -> Seq<u8> {
    le_bytes(r.0 as nat, 4) + le_bytes(r.1 as nat, 4) + le_bytes(r.2 as nat, 4)
}

/// The resource entry at `p`.
pub open spec fn resource_entry_at(d: Seq<u8>, p: int) -> (u32, u32, u32) {
    (le_at(d, p, 4) as u32, le_at(d, p + 4, 4) as u32, le_at(d, p + 8, 4) as u32)
}

impl DRSResource {
    /// A resource with the given fields.
    pub(crate) fn new(id: u32, offset: u32, size: u32) -> (r: Self)
        ensures
            r@ == (id, offset, size),
    {
        DRSResource { id, offset, size }
    }

    /// Read a resource entry.
    fn from(input: &[u8], pos: usize) -> (r: Result<(Self, usize), ReadError>)
        ensures
            r is Ok <==> pos + 12 <= input.len(),
            r matches Ok((res, p)) ==> res@ == resource_entry_at(input@, pos as int) && p == pos
                + 12,
            r matches Err(e) ==> e == ReadError::UnexpectedEof,
    {
        let (id, p) = read_u32_le(input, pos)?;
        let (offset, p) = read_u32_le(input, p)?;
        let (size, p) = read_u32_le(input, p)?;
        Ok((DRSResource { id, offset, size }, p))
    }

    /// Write a resource entry.
    fn write_to(&self, out: &mut Vec<u8>)
        ensures
            final(out)@ == old(out)@ + resource_entry(self@),
    {
        put_u32_le(out, self.id);
        put_u32_le(out, self.offset);
        put_u32_le(out, self.size);
        assert(final(out)@ =~= old(out)@ + resource_entry(self@));
    }
}

/// The banner of archives written by the library: "Copyright (c) 1997 Ensemble Studios.",
/// a `0x1a` byte and three NULs.
pub open spec fn default_banner() -> Seq<u8> {
    seq![
        0x43u8, 0x6f, 0x70, 0x79, 0x72, 0x69, 0x67, 0x68, 0x74, 0x20, 0x28, 0x63, 0x29, 0x20,
        0x31, 0x39, 0x39, 0x37, 0x20, 0x45, 0x6e, 0x73, 0x65, 0x6d, 0x62, 0x6c, 0x65, 0x20,
        0x53, 0x74, 0x75, 0x64, 0x69, 0x6f, 0x73, 0x2e, 0x1a, 0x00, 0x00, 0x00,
    ]
}

/// The version of archives written by the library: "1.00".
pub open spec fn default_version() -> Seq<u8> {
    seq![0x31u8, 0x2e, 0x30, 0x30]
}

/// The password of archives written by the library: "tribe" and seven NULs.
pub open spec fn default_password() -> Seq<u8> {
    seq![0x74u8, 0x72, 0x69, 0x62, 0x65, 0, 0, 0, 0, 0, 0, 0]
}

/// The DRS archive header.
#[derive(Debug)]
pub struct DRSHeader {
    /// A copyright message.
    banner_msg: [u8; 40],
    /// File version. (always "1.00")
    version: [u8; 4],
    /// File password / identifier.
    password: [u8; 12],
    /// The amount of resource types (tables).
    num_resource_types: u32,
    /// Size in bytes of the metadata and tables. Resource contents start at this offset.
    directory_size: u32,
}

/// The fields of a header: banner, version, password, number of tables, directory size.
pub type HeaderFields = (Seq<u8>, Seq<u8>, Seq<u8>, u32, u32);

impl View for DRSHeader {
    type V = HeaderFields;

    closed spec fn view(&self) -> HeaderFields {
        (
            self.banner_msg@,
            self.version@,
            self.password@,
            self.num_resource_types,
            self.directory_size,
        )
    }
}

/// The 64 bytes of a header.
pub open spec fn header_bytes(h: HeaderFields) -> Seq<u8> {
    h.0 + h.1 + h.2 + le_bytes(h.3 as nat, 4) + le_bytes(h.4 as nat, 4)
}

/// The header at the start of `d`.
pub open spec fn header_at(d: Seq<u8>) -> HeaderFields {
    (d.subrange(0, 40), d.subrange(40, 44), d.subrange(44, 56), le_at(d, 56, 4) as u32, le_at(
        d,
        60,
        4,
    ) as u32)
}

/// Copies `n` bytes of `v` starting at `from` into a fixed-size array.
fn copy_array_40(v: &[u8], from: usize) -> (a: [u8; 40])
    requires
        from + 40 <= v.len(),
    ensures
        a@ == v@.subrange(from as int, from + 40),
{
    let mut a: [u8; 40] = [0u8; 40];
    let mut i: usize = 0;
    while i < 40
        invariant
            from + 40 <= v.len(),
            i <= 40,
            a@.len() == 40,
            forall|j: int| 0 <= j < i ==> a@[j] == v@[from + j],
        decreases 40 - i,
    {
        a[i] = v[from + i];
        i = i + 1;
    }
    assert(a@ =~= v@.subrange(from as int, from + 40));
    a
}

fn copy_array_12(v: &[u8], from: usize) -> (a: [u8; 12])
    requires
        from + 12 <= v.len(),
    ensures
        a@ == v@.subrange(from as int, from + 12),
{
    let mut a: [u8; 12] = [0u8; 12];
    let mut i: usize = 0;
    while i < 12
        invariant
            from + 12 <= v.len(),
            i <= 12,
            a@.len() == 12,
            forall|j: int| 0 <= j < i ==> a@[j] == v@[from + j],
        decreases 12 - i,
    {
        a[i] = v[from + i];
        i = i + 1;
    }
    assert(a@ =~= v@.subrange(from as int, from + 12));
    a
}

fn copy_array_4(v: &[u8], from: usize) -> (a: [u8; 4])
    requires
        from + 4 <= v.len(),
    ensures
        a@ == v@.subrange(from as int, from + 4),
{
    let a: [u8; 4] = [v[from], v[from + 1], v[from + 2], v[from + 3]];
    assert(a@ =~= v@.subrange(from as int, from + 4));
    a
}

impl Default for DRSHeader {
    /// The header of a new archive: the library's banner, version "1.00", password "tribe",
    /// no tables and an empty directory.
    fn default() -> (h: Self)
        ensures
            h@ == (default_banner(), default_version(), default_password(), 0u32, 0u32),
    {
        let banner_msg: [u8; 40] = [
            0x43u8, 0x6f, 0x70, 0x79, 0x72, 0x69, 0x67, 0x68, 0x74, 0x20, 0x28, 0x63, 0x29, 0x20,
            0x31, 0x39, 0x39, 0x37, 0x20, 0x45, 0x6e, 0x73, 0x65, 0x6d, 0x62, 0x6c, 0x65, 0x20,
            0x53, 0x74, 0x75, 0x64, 0x69, 0x6f, 0x73, 0x2e, 0x1a, 0x00, 0x00, 0x00,
        ];
        let version: [u8; 4] = [0x31u8, 0x2e, 0x30, 0x30];
        let password: [u8; 12] = [0x74u8, 0x72, 0x69, 0x62, 0x65, 0, 0, 0, 0, 0, 0, 0];
        let h = DRSHeader {
            banner_msg,
            version,
            password,
            num_resource_types: 0,
            directory_size: 0,
        };
        assert(h@.0 =~= default_banner());
        assert(h@.1 =~= default_version());
        assert(h@.2 =~= default_password());
        h
    }
}

impl DRSHeader {
    /// Sets the number of tables and the size of the directory.
    fn set_counts(&mut self, num_resource_types: u32, directory_size: u32)
        ensures
            final(self)@ == (old(self)@.0, old(self)@.1, old(self)@.2, num_resource_types, directory_size),
    {
        self.num_resource_types = num_resource_types;
        self.directory_size = directory_size;
    }

    /// Read a DRS archive header.
    fn from(input: &[u8]) -> (r: Result<Self, ReadError>)
        ensures
            r is Ok <==> 64 <= input.len(),
            r matches Ok(h) ==> h@ == header_at(input@),
            r matches Err(e) ==> e == ReadError::UnexpectedEof,
    {
        if input.len() < 64 {
            return Err(ReadError::UnexpectedEof);
        }
        let banner_msg = copy_array_40(input, 0);
        let version = copy_array_4(input, 40);
        let password = copy_array_12(input, 44);
        let (num_resource_types, p) = read_u32_le(input, 56)?;
        let (directory_size, _p) = read_u32_le(input, p)?;
        Ok(DRSHeader { banner_msg, version, password, num_resource_types, directory_size })
    }

    /// Write the header.
    fn write_to(&self, out: &mut Vec<u8>)
        ensures
            final(out)@ == old(out)@ + header_bytes(self@),
    {
        push_bytes(out, &self.banner_msg);
        push_bytes(out, &self.version);
        push_bytes(out, &self.password);
        put_u32_le(out, self.num_resource_types);
        put_u32_le(out, self.directory_size);
        assert(final(out)@ =~= old(out)@ + header_bytes(self@));
    }
}


/// A sorted vector of `sorted_vec`.
#[verifier::external_type_specification]
#[verifier::external_body]
#[verifier::reject_recursive_types(T)]
pub struct ExSortedVec<T: Ord>(SortedVec<T>);

/// The elements of a sorted vector of IDs, in their order.
pub uninterp spec fn sorted_ids(v: SortedVec<u32>) -> Seq<u32>;

/// `s` is in ascending order.
pub open spec fn ascending(s: Seq<u32>) -> bool {
    forall|i: int, j: int| 0 <= i <= j < s.len() ==> s[i] <= s[j]
}

/// `SortedVec::new`: an empty sorted vector.
#[verifier::external_body]
fn ids_new() -> (v: SortedVec<u32>)
    ensures
        sorted_ids(v) == Seq::<u32>::empty(),
{
    SortedVec::new()
}

/// `SortedVec::insert`: the element goes to the position that `binary_search` gives for it
/// (that of an equal element, or the one that keeps the order), which is returned.
#[verifier::external_body]
fn ids_insert(v: &mut SortedVec<u32>, x: u32) -> (i: usize)
    ensures
        i <= sorted_ids(*old(v)).len(),
        sorted_ids(*final(v)) == sorted_ids(*old(v)).insert(i as int, x),
        ascending(sorted_ids(*old(v))) ==> ascending(sorted_ids(*final(v))),
{
    v.insert(x)
}

/// `binary_search` of the vector under a sorted vector: on ascending elements, `Ok` with the
/// position of an element equal to `x`, or `Err` when there is none.
#[verifier::external_body]
fn ids_binary_search(v: &SortedVec<u32>, x: u32) -> (r: Result<usize, usize>)
    ensures
        ascending(sorted_ids(*v)) ==> match r {
            Ok(i) => i < sorted_ids(*v).len() && sorted_ids(*v)[i as int] == x,
            Err(_) => !sorted_ids(*v).contains(x),
        },
{
    v.binary_search(&x)
}

/// The IDs of a sequence of resource entries.
pub open spec fn entry_ids(r: Seq<(u32, u32, u32)>) -> Seq<u32> {
    r.map_values(|e: (u32, u32, u32)| e.0)
}

/// The entries of a sequence of resources.
pub open spec fn entries(r: Seq<DRSResource>) -> Seq<(u32, u32, u32)> {
    r.map_values(|e: DRSResource| e@)
}

/// A table containing resource entries.
#[derive(Debug)]
pub struct DRSTable {
    /// Type of the resource as a little-endian char array.
    pub resource_type: ResourceType,
    /// Offset in the DRS archive where this table's resource entries can be found.
    offset: u32,
    /// Number of resource entries in this table.
    num_resources: u32,
    /// Resources.
    resources: Vec<DRSResource>,
    /// Resource IDs.
    resource_ids: SortedVec<u32>,
}

/// The fields of a table: type, offset, number of resources, resource entries, and the
/// sorted IDs by which resources are found.
pub type TableView = (Seq<u8>, u32, u32, Seq<(u32, u32, u32)>, Seq<u32>);

impl View for DRSTable {
    type V = TableView;

    closed spec fn view(&self) -> TableView {
        (
            self.resource_type@,
            self.offset,
            self.num_resources,
            entries(self.resources@),
            sorted_ids(self.resource_ids),
        )
    }
}

/// What every table keeps: its IDs are ascending, and there are no more of them than
/// resources.
pub open spec fn table_wf(t: TableView) -> bool {
    ascending(t.4) && t.4.len() <= t.3.len()
}

/// The table has a resource with ID `id`: its sorted IDs hold it, and so does an entry.
pub open spec fn table_holds(t: TableView, id: u32) -> bool {
    t.4.contains(id) && entry_ids(t.3).contains(id)
}

/// A table as read from an archive: its IDs are those of its resources, in ascending order.
pub open spec fn table_indexed(t: TableView) -> bool {
    table_wf(t) && t.4.to_multiset() == entry_ids(t.3).to_multiset()
}

/// The 12-byte entry of a table: type, offset and number of resources.
pub open spec fn table_entry(ty: Seq<u8>, offset: u32, num: u32) -> Seq<u8> {
    ty + le_bytes(offset as nat, 4) + le_bytes(num as nat, 4)
}

/// The table entry at `p`: type, offset and number of resources.
pub open spec fn table_entry_at(d: Seq<u8>, p: int) -> (Seq<u8>, u32, u32) {
    (d.subrange(p, p + 4), le_at(d, p + 4, 4) as u32, le_at(d, p + 8, 4) as u32)
}

impl DRSTable {
    /// A table with no resources yet.
    fn new(resource_type: ResourceType, offset: u32, num_resources: u32) -> (t: Self)
        ensures
            t@ == (resource_type@, offset, num_resources, Seq::<(u32, u32, u32)>::empty(), Seq::<u32>::empty()),
    {
        let t = DRSTable {
            resource_type,
            offset,
            num_resources,
            resources: Vec::new(),
            resource_ids: ids_new(),
        };
        assert(entries(t.resources@) =~= Seq::<(u32, u32, u32)>::empty());
        t
    }

    /// The type of this table's resources.
    pub fn resource_type(&self) -> (t: ResourceType)
        ensures
            t@ == self@.0,
    {
        self.resource_type
    }

    /// Read a DRS table entry.
    fn from(input: &[u8], pos: usize) -> (r: Result<(Self, usize), ReadError>)
        ensures
            r is Ok <==> pos + 12 <= input.len(),
            r matches Ok((t, p)) ==> ({
                let e = table_entry_at(input@, pos as int);
                t@ == (e.0, e.1, e.2, Seq::<(u32, u32, u32)>::empty(), Seq::<u32>::empty()) && p
                    == pos + 12
            }),
            r matches Err(e) ==> e == ReadError::UnexpectedEof,
    {
        if pos > input.len() || input.len() - pos < 12 {
            return Err(ReadError::UnexpectedEof);
        }
        let ty = copy_array_4(input, pos);
        let (offset, p) = read_u32_le(input, pos + 4)?;
        let (num_resources, p) = read_u32_le(input, p)?;
        Ok((DRSTable::new(ResourceType::from_array(ty), offset, num_resources), p))
    }

    /// Write the table entry, with the given offset of its resource entries.
    fn write_entry(&self, offset: u32, out: &mut Vec<u8>)
        ensures
            final(out)@ == old(out)@ + table_entry(self@.0, offset, self@.2),
    {
        self.resource_type.write_to(out);
        put_u32_le(out, offset);
        put_u32_le(out, self.num_resources);
        assert(final(out)@ =~= old(out)@ + table_entry(self@.0, offset, self@.2));
    }

    /// Read the resource entries of the table, as many as its entry says, starting at `pos`.
    fn read_resources(&mut self, input: &[u8], pos: usize) -> (r: Result<usize, ReadError>)
        requires
            old(self)@.3.len() == 0,
            old(self)@.4.len() == 0,
            pos <= input.len(),
        ensures
            r is Ok <==> pos + 12 * old(self)@.2 <= input.len(),
            r matches Ok(p) ==> p == pos + 12 * old(self)@.2 && final(self)@.0 == old(self)@.0
                && final(self)@.1 == old(self)@.1 && final(self)@.2 == old(self)@.2
                && final(self)@.3 == Seq::new(
                old(self)@.2 as nat,
                |i: int| resource_entry_at(input@, pos + 12 * i),
            ) && table_indexed(final(self)@),
            r matches Err(e) ==> e == ReadError::UnexpectedEof,
    {
        broadcast use vstd::seq_lib::to_multiset_insert, vstd::seq_lib::to_multiset_build;

        let n = self.num_resources;
        let mut i: u32 = 0;
        let mut p = pos;
        assert(entry_ids(self@.3) =~= self@.4);
        while i < n
            invariant
                p <= input.len(),
                n == self@.2 == old(self)@.2,
                self@.0 == old(self)@.0,
                self@.1 == old(self)@.1,
                i <= n,
                p == pos + 12 * i,
                self@.3 == Seq::new(i as nat, |j: int| resource_entry_at(input@, pos + 12 * j)),
                table_indexed(self@),
            decreases n - i,
        {
            let (resource, q) = match DRSResource::from(input, p) {
                Ok(x) => x,
                Err(e) => {
                    return Err(e);
                },
            };
            let ghost before = self@;
            let at = ids_insert(&mut self.resource_ids, resource.id);
            self.resources.push(resource);
            proof {
                vstd::seq_lib::to_multiset_insert(before.4, at as int, resource@.0);
                vstd::seq_lib::to_multiset_build(entry_ids(before.3), resource@.0);
                assert(entries(self.resources@) =~= before.3.push(resource@));
                assert(entry_ids(self@.3) =~= entry_ids(before.3).push(resource@.0));
                assert(self@.3 =~= Seq::new(
                    (i + 1) as nat,
                    |j: int| resource_entry_at(input@, pos + 12 * j),
                ));
            }
            p = q;
            i = i + 1;
        }
        Ok(p)
    }

    /// Get the number of resources in this table.
    pub fn len(&self) -> (n: usize)
        ensures
            n == self@.2,
    {
        self.num_resources as usize
    }

    /// Check if the table contains no resources.
    pub fn is_empty(&self) -> (b: bool)
        ensures
            b == (self@.2 == 0),
    {
        self.num_resources == 0
    }

    /// The resources in this table.
    pub fn resources(&self) -> (r: &[DRSResource])
        ensures
            entries(r@) == self@.3,
    {
        self.resources.as_slice()
    }

    /// Find a resource by ID: a resource of this table whose ID is `id`. The sorted IDs
    /// say whether there is one; the entry at the position where they hold `id` is taken
    /// when it has that ID, and otherwise the first entry that has it.
    pub fn get_resource(&self, id: u32) -> (r: Option<&DRSResource>)
        requires
            table_wf(self@),
        ensures
            r is Some <==> table_holds(self@, id),
            r matches Some(res) ==> res@.0 == id && self@.3.contains(res@),
    {
        match ids_binary_search(&self.resource_ids, id) {
            Ok(index) => {
                assert(self@.4[index as int] == id);
                let hit = &self.resources[index];
                if hit.id == id {
                    assert(self@.3[index as int] == hit@);
                    assert(entry_ids(self@.3)[index as int] == id);
                    return Some(hit);
                }
                let mut i: usize = 0;
                while i < self.resources.len()
                    invariant
                        i <= self.resources@.len(),
                        self@.4.contains(id),
                        forall|j: int| 0 <= j < i ==> #[trigger] entry_ids(self@.3)[j] != id,
                    decreases self.resources@.len() - i,
                {
                    assert(self@.3[i as int] == self.resources@[i as int]@);
                    if self.resources[i].id == id {
                        assert(entry_ids(self@.3)[i as int] == id);
                        return Some(&self.resources[i]);
                    }
                    i = i + 1;
                }
                assert(!entry_ids(self@.3).contains(id));
                None
            },
            Err(_) => None,
        }
    }

    /// The name of this table's resource type.
    pub fn resource_ext(&self) -> (s: String)
        requires
            valid_utf8(unreversed(self@.0)),
        ensures
            s@ == trimmed(decode_utf8(unreversed(self@.0))),
    {
        self.resource_type.to_string()
    }

    /// Add a resource to the table.
    fn add(&mut self, res: DRSResource)
        requires
            old(self)@.2 < u32::MAX,
        ensures
            final(self)@ == (old(self)@.0, old(self)@.1, (old(self)@.2 + 1) as u32, old(self)@.3.push(
                res@,
            ), old(self)@.4),
    {
        let ghost before = self@;
        self.resources.push(res);
        self.num_resources = self.num_resources + 1;
        assert(entries(self.resources@) =~= before.3.push(res@));
    }
}

/// In a table whose resources come in ascending order of ID, as the library writes them
/// when IDs are added in that order, the sorted IDs are the resources' IDs, so that a
/// resource found by ID has that ID.
pub proof fn law_ascending_table_index(t: TableView, id: u32, i: int)
    requires
        table_indexed(t),
        ascending(entry_ids(t.3)),
        0 <= i < t.4.len(),
        t.4[i] == id,
    ensures
        t.3[i].0 == id,
{
    vstd::seq_lib::lemma_sorted_unique(t.4, entry_ids(t.3), |a: u32, b: u32| a <= b);
}

} // verus!
