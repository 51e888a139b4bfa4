//! The nodes of the tech tree data: ages, buildings, units and techs, and the tree itself.
use crate::codec::{
    i32_at, i32_bytes, lemma_field_lens, lemma_i32_field, lemma_u32_field, push_bytes,
    put_i32_le, put_u32_le, read_bytes, read_i32_le, read_u32_le, read_u8, u32_at, u32_bytes,
    ReadError,
};
use crate::dat::ids::{TechID, UnitTypeID};
use crate::codec::{le_at, lemma_le_value_bound, lemma_pow256_values, signed_of};
use crate::dat::tech_tree::{
    deps_bytes, deps_step, id16_of, law_dependencies_read_of_write, read_as, status_code,
    type_code, DepView, TechTreeDependencies, TechTreeStatus, TechTreeType,
};
use vstd::prelude::*;

verus! {

/// An `i32` field at `p`.
pub open spec fn i32_step(d: Seq<u8>, p: int) -> Result<(i32, int), ReadError> {
    if p + 4 <= d.len() {
        Ok((i32_at(d, p), p + 4))
    } else {
        Err(ReadError::UnexpectedEof)
    }
}

/// A 16-bit ID stored as an `i32` at `p`; refused as invalid data when it does not fit.
pub open spec fn id16_step(d: Seq<u8>, p: int) -> Result<(u16, int), ReadError> {
    match i32_step(d, p) {
        Ok((n, q)) => match id16_of(n) {
            Ok(id) => Ok((id, q)),
            Err(e) => Err(e),
        },
        Err(e) => Err(e),
    }
}

/// A status stored as a byte at `p`, as its number; refused as invalid data unless it is
/// 1 to 5 or 10 and more.
pub open spec fn status_step(d: Seq<u8>, p: int) -> Result<(int, int), ReadError> {
    if p + 1 <= d.len() {
        if (1 <= d[p] <= 5 || d[p] >= 10) {
            Ok((d[p] as int, p + 1))
        } else {
            Err(ReadError::InvalidData)
        }
    } else {
        Err(ReadError::UnexpectedEof)
    }
}

/// A node type stored as an `i32` at `p`, as its number; refused as invalid data unless it
/// is 0 to 7.
pub open spec fn type_step(d: Seq<u8>, p: int) -> Result<(int, int), ReadError> {
    match i32_step(d, p) {
        Ok((n, q)) => if 0 <= n <= 7 {
            Ok((n as int, q))
        } else {
            Err(ReadError::InvalidData)
        },
        Err(e) => Err(e),
    }
}

/// An optional tech stored as a `u32` at `p`: `0xFFFF_FFFF` for none; refused as invalid
/// data when it does not fit in 16 bits.
pub open spec fn opt_tech_step(d: Seq<u8>, p: int) -> Result<(Option<u16>, int), ReadError> {
    if p + 4 <= d.len() {
        if u32_at(d, p) == 0xFFFF_FFFF {
            Ok((None, p + 4))
        } else if u32_at(d, p) <= 0xFFFF {
            Ok((Some(u32_at(d, p) as u16), p + 4))
        } else {
            Err(ReadError::InvalidData)
        }
    } else {
        Err(ReadError::UnexpectedEof)
    }
}

/// The first `n` IDs of a list of dependents stored from `p`, four bytes each.
pub open spec fn ids_from(d: Seq<u8>, p: int, n: nat) -> Result<Seq<u16>, ReadError>
    decreases n,
{
    if n == 0 {
        Ok(Seq::empty())
    } else {
        match ids_from(d, p, (n - 1) as nat) {
            Ok(s) => match id16_step(d, p + 4 * (n - 1)) {
                Ok((id, _)) => Ok(s.push(id)),
                Err(e) => Err(e),
            },
            Err(e) => Err(e),
        }
    }
}

/// A list of dependents stored at `p`: a count byte, then that many IDs.
#[verifier::opaque]
pub open spec fn dependents_step(d: Seq<u8>, p: int) -> Result<(Seq<u16>, int), ReadError> {
    if p + 1 <= d.len() {
        match ids_from(d, p + 1, d[p] as nat) {
            Ok(s) => Ok((s, p + 1 + 4 * d[p])),
            Err(e) => Err(e),
        }
    } else {
        Err(ReadError::UnexpectedEof)
    }
}

/// The lists of dependent buildings, units and techs of a node, and its dependencies.
pub type ListsView = (Seq<u16>, Seq<u16>, Seq<u16>, Seq<DepView>);

/// The lists of a node stored at `p`: three lists of dependents, then the dependencies.
pub open spec fn lists_step(d: Seq<u8>, p: int) -> Result<(ListsView, int), ReadError> {
    match dependents_step(d, p) {
        Ok((b, p1)) => match dependents_step(d, p1) {
            Ok((u, p2)) => match dependents_step(d, p2) {
                Ok((t, p3)) => match deps_step(d, p3) {
                    Ok((x, p4)) => Ok(((b, u, t, x), p4)),
                    Err(e) => Err(e),
                },
                Err(e) => Err(e),
            },
            Err(e) => Err(e),
        },
        Err(e) => Err(e),
    }
}

/// The bytes of a list of dependent IDs, four each.
pub open spec fn ids_bytes(s: Seq<u16>) -> Seq<u8>
    decreases s.len(),
{
    if s.len() == 0 {
        Seq::empty()
    } else {
        ids_bytes(s.drop_last()) + u32_bytes(s.last() as u32)
    }
}

/// The bytes of a list of dependents: its length, cut to a byte, then its IDs.
pub open spec fn dependents_bytes(s: Seq<u16>) -> Seq<u8> {
    seq![s.len() as u8] + ids_bytes(s)
}

/// The bytes of the lists of a node.
pub open spec fn lists_bytes(l: ListsView) -> Seq<u8> {
    dependents_bytes(l.0) + dependents_bytes(l.1) + dependents_bytes(l.2) + deps_bytes(l.3)
}

/// The views of a list of unit type IDs.
pub open spec fn unit_ids(v: Seq<UnitTypeID>) -> Seq<u16> {
    v.map_values(|x: UnitTypeID| x@)
}

/// The views of a list of tech IDs.
pub open spec fn tech_ids(v: Seq<TechID>) -> Seq<u16> {
    v.map_values(|x: TechID| x@)
}

/// The view of an optional tech.
pub open spec fn opt_tech(o: Option<TechID>) -> Option<u16> {
    match o {
        Some(t) => Some(t@),
        None => None,
    }
}

/// The bytes of an optional tech: its ID, or `0xFFFF_FFFF` for none.
pub open spec fn opt_tech_bytes(o: Option<u16>) -> Seq<u8> {
    match o {
        Some(t) => u32_bytes(t as u32),
        None => u32_bytes(0xFFFF_FFFF),
    }
}

/// Read an `i32` field that holds a 16-bit ID.
fn read_id16(input: &[u8], pos: usize) -> (r: Result<(u16, usize), ReadError>)
    ensures
        match id16_step(input@, pos as int) {
            Ok((v, q)) => r matches Ok((x, p)) && x == v && p == q,
            Err(e) => r matches Err(f) && f == e,
        },
{
    let (n, p) = read_i32_le(input, pos)?;
    if 0 <= n && n <= 0xFFFF {
        Ok((n as u16, p))
    } else {
        Err(ReadError::InvalidData)
    }
}

/// Read a status byte.
fn read_status(input: &[u8], pos: usize) -> (r: Result<(TechTreeStatus, usize), ReadError>)
    ensures
        match status_step(input@, pos as int) {
            Ok((v, q)) => r matches Ok((x, p)) && status_code(x) == v && p == q,
            Err(e) => r matches Err(f) && f == e,
        },
{
    let (n, p) = read_u8(input, pos)?;
    match TechTreeStatus::try_from(n) {
        Ok(s) => Ok((s, p)),
        Err(_) => Err(ReadError::InvalidData),
    }
}

/// Read a node type.
fn read_node_type(input: &[u8], pos: usize) -> (r: Result<(TechTreeType, usize), ReadError>)
    ensures
        match type_step(input@, pos as int) {
            Ok((v, q)) => r matches Ok((x, p)) && type_code(x) == v && p == q,
            Err(e) => r matches Err(f) && f == e,
        },
{
    let (n, p) = read_i32_le(input, pos)?;
    match TechTreeType::try_from(n) {
        Ok(t) => Ok((t, p)),
        Err(_) => Err(ReadError::InvalidData),
    }
}

/// Read an optional tech.
fn read_opt_tech(input: &[u8], pos: usize) -> (r: Result<(Option<TechID>, usize), ReadError>)
    ensures
        match opt_tech_step(input@, pos as int) {
            Ok((v, q)) => r matches Ok((x, p)) && opt_tech(x) == v && p == q,
            Err(e) => r matches Err(f) && f == e,
        },
{
    let (n, p) = read_u32_le(input, pos)?;
    if n == 0xFFFF_FFFF {
        Ok((None, p))
    } else if n <= 0xFFFF {
        Ok((Some(TechID::from(n as u16)), p))
    } else {
        Err(ReadError::InvalidData)
    }
}

/// Once reading the IDs of a list fails, reading more of them fails the same way.
proof fn lemma_ids_from_err(d: Seq<u8>, p: int, k: nat, m: nat)
    requires
        k <= m,
        ids_from(d, p, k) is Err,
    ensures
        ids_from(d, p, m) == ids_from(d, p, k),
    decreases m - k,
{
    if k < m {
        lemma_ids_from_err(d, p, k, (m - 1) as nat);
    }
}

/// Read a list of dependent unit types (or buildings).
fn read_unit_dependents(input: &[u8], pos: usize) -> (r: Result<(Vec<UnitTypeID>, usize), ReadError>)
    ensures
        match dependents_step(input@, pos as int) {
            Ok((v, q)) => r matches Ok((x, p)) && unit_ids(x@) == v && p == q,
            Err(e) => r matches Err(f) && f == e,
        },
{
    proof {
        reveal(dependents_step);
    }
    let (num, p) = read_u8(input, pos)?;
    let mut list: Vec<UnitTypeID> = Vec::new();
    let mut p = p;
    let mut k: u8 = 0;
    assert(unit_ids(list@) =~= Seq::<u16>::empty());
    while k < num
        invariant
            num == input@[pos as int],
            pos + 1 <= input.len(),
            k <= num,
            p == pos + 1 + 4 * k,
            ids_from(input@, pos + 1, k as nat) == Ok::<Seq<u16>, ReadError>(unit_ids(list@)),
        decreases num - k,
    {
        let (id, q) = match read_id16(input, p) {
            Ok(x) => x,
            Err(e) => {
                proof {
                    reveal(dependents_step);
                    assert(ids_from(input@, pos + 1, (k + 1) as nat) == Err::<Seq<u16>, ReadError>(
                        e,
                    ));
                    lemma_ids_from_err(input@, pos + 1, (k + 1) as nat, num as nat);
                }
                return Err(e);
            },
        };
        let ghost before = list@;
        list.push(UnitTypeID::from(id));
        proof {
            assert(unit_ids(list@) =~= unit_ids(before).push(id));
        }
        p = q;
        k = k + 1;
    }
    Ok((list, p))
}

/// Read a list of dependent techs.
fn read_tech_dependents(input: &[u8], pos: usize) -> (r: Result<(Vec<TechID>, usize), ReadError>)
    ensures
        match dependents_step(input@, pos as int) {
            Ok((v, q)) => r matches Ok((x, p)) && tech_ids(x@) == v && p == q,
            Err(e) => r matches Err(f) && f == e,
        },
{
    proof {
        reveal(dependents_step);
    }
    let (num, p) = read_u8(input, pos)?;
    let mut list: Vec<TechID> = Vec::new();
    let mut p = p;
    let mut k: u8 = 0;
    assert(tech_ids(list@) =~= Seq::<u16>::empty());
    while k < num
        invariant
            num == input@[pos as int],
            pos + 1 <= input.len(),
            k <= num,
            p == pos + 1 + 4 * k,
            ids_from(input@, pos + 1, k as nat) == Ok::<Seq<u16>, ReadError>(tech_ids(list@)),
        decreases num - k,
    {
        let (id, q) = match read_id16(input, p) {
            Ok(x) => x,
            Err(e) => {
                proof {
                    reveal(dependents_step);
                    assert(ids_from(input@, pos + 1, (k + 1) as nat) == Err::<Seq<u16>, ReadError>(
                        e,
                    ));
                    lemma_ids_from_err(input@, pos + 1, (k + 1) as nat, num as nat);
                }
                return Err(e);
            },
        };
        let ghost before = list@;
        list.push(TechID::from(id));
        proof {
            assert(tech_ids(list@) =~= tech_ids(before).push(id));
        }
        p = q;
        k = k + 1;
    }
    Ok((list, p))
}

/// Read the lists of a node: its dependent buildings, units and techs, and its
/// dependencies.
fn read_lists(input: &[u8], pos: usize) -> (r: Result<
    (Vec<UnitTypeID>, Vec<UnitTypeID>, Vec<TechID>, TechTreeDependencies, usize),
    ReadError,
>)
    ensures
        match lists_step(input@, pos as int) {
            Ok((v, q)) => r matches Ok((b, u, t, x, p)) && unit_ids(b@) == v.0 && unit_ids(u@)
                == v.1 && tech_ids(t@) == v.2 && x@ == v.3 && p == q,
            Err(e) => r matches Err(f) && f == e,
        },
{
    let (buildings, p) = read_unit_dependents(input, pos)?;
    let (units, p) = read_unit_dependents(input, p)?;
    let (techs, p) = read_tech_dependents(input, p)?;
    let (deps, p) = TechTreeDependencies::read_from(input, p)?;
    Ok((buildings, units, techs, deps, p))
}

/// Append a list of dependent unit types (or buildings): its length, cut to a byte, then
/// the IDs.
fn write_unit_dependents(output: &mut Vec<u8>, list: &Vec<UnitTypeID>)
    ensures
        final(output)@ == old(output)@ + dependents_bytes(unit_ids(list@)),
{
    output.push(list.len() as u8);
    let ghost head = output@;
    let mut i: usize = 0;
    assert(unit_ids(list@).take(0) =~= Seq::<u16>::empty());
    while i < list.len()
        invariant
            i <= list.len(),
            output@ == head + ids_bytes(unit_ids(list@).take(i as int)),
        decreases list.len() - i,
    {
        put_u32_le(output, u16::from(list[i]) as u32);
        i = i + 1;
        assert(unit_ids(list@).take(i as int).drop_last() =~= unit_ids(list@).take(i - 1));
        assert(output@ =~= head + ids_bytes(unit_ids(list@).take(i as int)));
    }
    assert(unit_ids(list@).take(list.len() as int) =~= unit_ids(list@));
    assert(output@ =~= old(output)@ + dependents_bytes(unit_ids(list@)));
}

/// Append a list of dependent techs: its length, cut to a byte, then the IDs.
fn write_tech_dependents(output: &mut Vec<u8>, list: &Vec<TechID>)
    ensures
        final(output)@ == old(output)@ + dependents_bytes(tech_ids(list@)),
{
    output.push(list.len() as u8);
    let ghost head = output@;
    let mut i: usize = 0;
    assert(tech_ids(list@).take(0) =~= Seq::<u16>::empty());
    while i < list.len()
        invariant
            i <= list.len(),
            output@ == head + ids_bytes(tech_ids(list@).take(i as int)),
        decreases list.len() - i,
    {
        put_u32_le(output, u16::from(list[i]) as u32);
        i = i + 1;
        assert(tech_ids(list@).take(i as int).drop_last() =~= tech_ids(list@).take(i - 1));
        assert(output@ =~= head + ids_bytes(tech_ids(list@).take(i as int)));
    }
    assert(tech_ids(list@).take(list.len() as int) =~= tech_ids(list@));
    assert(output@ =~= old(output)@ + dependents_bytes(tech_ids(list@)));
}

/// Append the lists of a node.
fn write_lists(
    output: &mut Vec<u8>,
    buildings: &Vec<UnitTypeID>,
    units: &Vec<UnitTypeID>,
    techs: &Vec<TechID>,
    deps: &TechTreeDependencies,
)
    ensures
        final(output)@ == old(output)@ + lists_bytes(
            (unit_ids(buildings@), unit_ids(units@), tech_ids(techs@), deps@),
        ),
{
    write_unit_dependents(output, buildings);
    write_unit_dependents(output, units);
    write_tech_dependents(output, techs);
    deps.write_to(output);
    assert(output@ =~= old(output)@ + lists_bytes(
        (unit_ids(buildings@), unit_ids(units@), tech_ids(techs@), deps@),
    ));
}

/// Append an optional tech: its ID, or `0xFFFF_FFFF` for none.
fn write_opt_tech(output: &mut Vec<u8>, t: Option<TechID>)
    ensures
        final(output)@ == old(output)@ + opt_tech_bytes(opt_tech(t)),
{
    match t {
        Some(id) => put_u32_le(output, u16::from(id) as u32),
        None => put_u32_le(output, 0xFFFF_FFFF),
    }
}

/// Copy ten bytes into an array.
fn array10(v: &Vec<u8>) -> (a: [u8; 10])
    requires
        v.len() == 10,
    ensures
        a@ == v@,
{
    let mut a = [0u8; 10];
    let mut i: usize = 0;
    while i < 10
        invariant
            v.len() == 10,
            i <= 10,
            a@.len() == 10,
            forall|j: int| 0 <= j < i ==> a@[j] == v@[j],
        decreases 10 - i,
    {
        a[i] = v[i];
        i = i + 1;
    }
    assert(a@ =~= v@);
    a
}

/// Copy five bytes into an array.
fn array5(v: &Vec<u8>) -> (a: [u8; 5])
    requires
        v.len() == 5,
    ensures
        a@ == v@,
{
    let mut a = [0u8; 5];
    let mut i: usize = 0;
    while i < 5
        invariant
            v.len() == 5,
            i <= 5,
            a@.len() == 5,
            forall|j: int| 0 <= j < i ==> a@[j] == v@[j],
        decreases 5 - i,
    {
        a[i] = v[i];
        i = i + 1;
    }
    assert(a@ =~= v@);
    a
}

/// Whether a status can be stored in a byte: its number is at most 255.
pub open spec fn status_storable(s: TechTreeStatus) -> bool {
    status_code(s) <= 255
}

/// The byte a status is stored as.
fn status_byte(s: TechTreeStatus) -> (b: u8)
    requires
        status_storable(s),
    ensures
        b == status_code(s),
{
    s.to_u8()
}

/// An age of the tech tree.
#[derive(Debug, Default, Clone)]
pub struct TechTreeAge {
    age_id: i32,
    status: TechTreeStatus,
    node_type: TechTreeType,
    /// The buildings that become available in this age.
    pub dependent_buildings: Vec<UnitTypeID>,
    /// The units that become available in this age.
    pub dependent_units: Vec<UnitTypeID>,
    /// The techs that become available in this age.
    pub dependent_techs: Vec<TechID>,
    prerequisites: TechTreeDependencies,
    building_levels: u8,
    buildings_per_zone: [u8; 10],
    group_length_per_zone: [u8; 10],
    max_age_length: u8,
}

/// The abstract value of an age node; the status and type are given by their numbers.
pub ghost struct AgeView {
    pub age_id: i32,
    pub status: int,
    pub lists: ListsView,
    pub building_levels: u8,
    pub buildings_per_zone: Seq<u8>,
    pub group_length_per_zone: Seq<u8>,
    pub max_age_length: u8,
    pub node_type: int,
}

impl View for TechTreeAge {
    type V = AgeView;

    closed spec fn view(&self) -> AgeView {
        AgeView {
            age_id: self.age_id,
            status: status_code(self.status),
            lists: (
                unit_ids(self.dependent_buildings@),
                unit_ids(self.dependent_units@),
                tech_ids(self.dependent_techs@),
                self.prerequisites@,
            ),
            building_levels: self.building_levels,
            buildings_per_zone: self.buildings_per_zone@,
            group_length_per_zone: self.group_length_per_zone@,
            max_age_length: self.max_age_length,
            node_type: type_code(self.node_type),
        }
    }
}

/// The first fields of the age stored at `p`: its ID, status and lists.
pub open spec fn age_head_step(d: Seq<u8>, p: int) -> Result<((i32, int, ListsView), int), ReadError> {
    match i32_step(d, p) {
        Ok((id, p1)) => match status_step(d, p1) {
            Ok((st, p2)) => match lists_step(d, p2) {
                Ok((l, p3)) => Ok(((id, st, l), p3)),
                Err(e) => Err(e),
            },
            Err(e) => Err(e),
        },
        Err(e) => Err(e),
    }
}

/// Whether reading the age stored at `p` panics: it claims more than ten building levels,
/// or its node type is not that of an age.
#[verifier::opaque]
pub open spec fn age_panics(d: Seq<u8>, p: int) -> bool {
    match age_head_step(d, p) {
        Ok((_, q)) => q + 1 <= d.len() && (d[q] > 10 || (q + 22 <= d.len() && (type_step(
            d,
            q + 22,
        ) matches Ok((t, _)) && t != 1))),
        Err(_) => false,
    }
}

/// The age stored at `p`: ID, status, lists, building levels, ten buildings per zone, ten
/// group lengths per zone, maximum age length and node type.
#[verifier::opaque]
pub open spec fn age_at(d: Seq<u8>, p: int) -> Result<(AgeView, int), ReadError> {
    match age_head_step(d, p) {
        Ok(((id, st, l), q)) => if q + 22 <= d.len() {
            match type_step(d, q + 22) {
                Ok((t, q2)) => Ok(
                    (
                        AgeView {
                            age_id: id,
                            status: st,
                            lists: l,
                            building_levels: d[q],
                            buildings_per_zone: d.subrange(q + 1, q + 11),
                            group_length_per_zone: d.subrange(q + 11, q + 21),
                            max_age_length: d[q + 21],
                            node_type: t,
                        },
                        q2,
                    ),
                ),
                Err(e) => Err(e),
            }
        } else {
            Err(ReadError::UnexpectedEof)
        },
        Err(e) => Err(e),
    }
}

/// The bytes an age is stored as.
pub open spec fn age_bytes(a: AgeView) -> Seq<u8> {
    i32_bytes(a.age_id) + seq![a.status as u8] + lists_bytes(a.lists) + seq![a.building_levels]
        + a.buildings_per_zone + a.group_length_per_zone + seq![a.max_age_length] + u32_bytes(
        a.node_type as u32,
    )
}

impl TechTreeAge {
    /// Read an age at `pos`; returns it and the position after it. Reading panics on an
    /// age with more than ten building levels or with the node type of something else,
    /// which `requires` rules out.
    pub fn read_from(input: &[u8], pos: usize) -> (r: Result<(Self, usize), ReadError>)
        requires
            !age_panics(input@, pos as int),
        ensures
            read_as(r, age_at(input@, pos as int)),
    {
        proof {
            reveal(age_panics);
            reveal(age_at);
        }
        let (age_id, p) = read_i32_le(input, pos)?;
        let (status, p) = read_status(input, p)?;
        let (dependent_buildings, dependent_units, dependent_techs, prerequisites, p) = read_lists(
            input,
            p,
        )?;
        let (building_levels, p) = read_u8(input, p)?;
        assert(building_levels <= 10);
        let (zones, p) = read_bytes(input, p, 10)?;
        let (lengths, p) = read_bytes(input, p, 10)?;
        let (max_age_length, p) = read_u8(input, p)?;
        let (node_type, p) = read_node_type(input, p)?;
        assert(type_code(node_type) == 1);
        let age = TechTreeAge {
            age_id,
            status,
            node_type,
            dependent_buildings,
            dependent_units,
            dependent_techs,
            prerequisites,
            building_levels,
            buildings_per_zone: array10(&zones),
            group_length_per_zone: array10(&lengths),
            max_age_length,
        };
        Ok((age, p))
    }

    /// Append this age to `output`. Its status must fit in a byte.
    pub fn write_to(&self, output: &mut Vec<u8>)
        requires
            self@.status <= 255,
        ensures
            final(output)@ == old(output)@ + age_bytes(self@),
    {
        put_i32_le(output, self.age_id);
        output.push(status_byte(self.status));
        write_lists(
            output,
            &self.dependent_buildings,
            &self.dependent_units,
            &self.dependent_techs,
            &self.prerequisites,
        );
        output.push(self.building_levels);
        push_bytes(output, &self.buildings_per_zone);
        push_bytes(output, &self.group_length_per_zone);
        output.push(self.max_age_length);
        put_u32_le(output, self.node_type.to_i32() as u32);
        assert(output@ =~= old(output)@ + age_bytes(self@));
    }
}

/// A building of the tech tree.
#[derive(Debug, Default, Clone)]
pub struct TechTreeBuilding {
    building_id: UnitTypeID,
    status: TechTreeStatus,
    node_type: TechTreeType,
    /// The tech ID that makes this building available. `None` if the building is available
    /// without requiring any techs.
    pub depends_tech_id: Option<TechID>,
    /// The buildings that become available by building this building.
    pub dependent_buildings: Vec<UnitTypeID>,
    /// The units that become available by building this building.
    pub dependent_units: Vec<UnitTypeID>,
    /// The techs that become available by building this building.
    pub dependent_techs: Vec<TechID>,
    prerequisites: TechTreeDependencies,
    level_no: u8,
    /// Total units and techs at this building by age, including ones that require research
    /// to unlock.
    total_children_by_age: [u8; 5],
    /// Initial units and techs at this building by age, excluding ones that require research
    /// to unlock.
    initial_children_by_age: [u8; 5],
}

/// The abstract value of a building node.
pub ghost struct BuildingView {
    pub building_id: u16,
    pub status: int,
    pub lists: ListsView,
    pub level_no: u8,
    pub total_children_by_age: Seq<u8>,
    pub initial_children_by_age: Seq<u8>,
    pub node_type: int,
    pub depends_tech_id: Option<u16>,
}

impl View for TechTreeBuilding {
    type V = BuildingView;

    closed spec fn view(&self) -> BuildingView {
        BuildingView {
            building_id: self.building_id@,
            status: status_code(self.status),
            lists: (
                unit_ids(self.dependent_buildings@),
                unit_ids(self.dependent_units@),
                tech_ids(self.dependent_techs@),
                self.prerequisites@,
            ),
            level_no: self.level_no,
            total_children_by_age: self.total_children_by_age@,
            initial_children_by_age: self.initial_children_by_age@,
            node_type: type_code(self.node_type),
            depends_tech_id: opt_tech(self.depends_tech_id),
        }
    }
}

/// The first fields of a building or tech node stored at `p`: its ID and status.
pub open spec fn id_status_step(d: Seq<u8>, p: int) -> Result<((u16, int), int), ReadError> {
    match id16_step(d, p) {
        Ok((id, p1)) => match status_step(d, p1) {
            Ok((st, p2)) => Ok(((id, st), p2)),
            Err(e) => Err(e),
        },
        Err(e) => Err(e),
    }
}

/// The building stored at `p`: ID, status, lists, level, five totals and five initial
/// counts by age, node type and the tech it depends on.
pub open spec fn building_at(d: Seq<u8>, p: int) -> Result<(BuildingView, int), ReadError> {
    match id_status_step(d, p) {
        Ok(((id, st), p2)) => match lists_step(d, p2) {
            Ok((l, q)) => if q + 11 <= d.len() {
                match type_step(d, q + 11) {
                    Ok((t, q2)) => match opt_tech_step(d, q2) {
                        Ok((dep, q3)) => Ok(
                            (
                                BuildingView {
                                    building_id: id,
                                    status: st,
                                    lists: l,
                                    level_no: d[q],
                                    total_children_by_age: d.subrange(q + 1, q + 6),
                                    initial_children_by_age: d.subrange(q + 6, q + 11),
                                    node_type: t,
                                    depends_tech_id: dep,
                                },
                                q3,
                            ),
                        ),
                        Err(e) => Err(e),
                    },
                    Err(e) => Err(e),
                }
            } else {
                Err(ReadError::UnexpectedEof)
            },
            Err(e) => Err(e),
        },
        Err(e) => Err(e),
    }
}

/// The bytes a building is stored as.
pub open spec fn building_bytes(b: BuildingView) -> Seq<u8> {
    u32_bytes(b.building_id as u32) + seq![b.status as u8] + lists_bytes(b.lists) + seq![
        b.level_no,
    ] + b.total_children_by_age + b.initial_children_by_age + u32_bytes(b.node_type as u32)
        + opt_tech_bytes(b.depends_tech_id)
}

impl TechTreeBuilding {
    /// Read a building at `pos`; returns it and the position after it.
    pub fn read_from(input: &[u8], pos: usize) -> (r: Result<(Self, usize), ReadError>)
        ensures
            read_as(r, building_at(input@, pos as int)),
    {
        let (building_id, p) = read_id16(input, pos)?;
        let (status, p) = read_status(input, p)?;
        let (dependent_buildings, dependent_units, dependent_techs, prerequisites, p) = read_lists(
            input,
            p,
        )?;
        let (level_no, p) = read_u8(input, p)?;
        let (totals, p) = read_bytes(input, p, 5)?;
        let (initials, p) = read_bytes(input, p, 5)?;
        let (node_type, p) = read_node_type(input, p)?;
        let (depends_tech_id, p) = read_opt_tech(input, p)?;
        let building = TechTreeBuilding {
            building_id: UnitTypeID::from(building_id),
            status,
            node_type,
            depends_tech_id,
            dependent_buildings,
            dependent_units,
            dependent_techs,
            prerequisites,
            level_no,
            total_children_by_age: array5(&totals),
            initial_children_by_age: array5(&initials),
        };
        Ok((building, p))
    }

    /// Append this building to `output`. Its status must fit in a byte.
    pub fn write_to(&self, output: &mut Vec<u8>)
        requires
            self@.status <= 255,
        ensures
            final(output)@ == old(output)@ + building_bytes(self@),
    {
        put_u32_le(output, u16::from(self.building_id) as u32);
        output.push(status_byte(self.status));
        write_lists(
            output,
            &self.dependent_buildings,
            &self.dependent_units,
            &self.dependent_techs,
            &self.prerequisites,
        );
        output.push(self.level_no);
        push_bytes(output, &self.total_children_by_age);
        push_bytes(output, &self.initial_children_by_age);
        put_u32_le(output, self.node_type.to_i32() as u32);
        write_opt_tech(output, self.depends_tech_id);
        assert(output@ =~= old(output)@ + building_bytes(self@));
    }
}

/// A unit of the tech tree.
#[derive(Debug, Default, Clone)]
pub struct TechTreeUnit {
    unit_id: UnitTypeID,
    status: TechTreeStatus,
    node_type: TechTreeType,
    depends_tech_id: Option<TechID>,
    building: UnitTypeID,
    requires_tech_id: Option<TechID>,
    dependent_units: Vec<UnitTypeID>,
    prerequisites: TechTreeDependencies,
    group_id: i32,
    level_no: i32,
}

/// The abstract value of a unit node.
pub ghost struct UnitView {
    pub unit_id: u16,
    pub status: int,
    pub building: u16,
    pub prerequisites: Seq<DepView>,
    pub group_id: i32,
    pub dependent_units: Seq<u16>,
    pub level_no: i32,
    pub requires_tech_id: Option<u16>,
    pub node_type: int,
    pub depends_tech_id: Option<u16>,
}

impl View for TechTreeUnit {
    type V = UnitView;

    closed spec fn view(&self) -> UnitView {
        UnitView {
            unit_id: self.unit_id@,
            status: status_code(self.status),
            building: self.building@,
            prerequisites: self.prerequisites@,
            group_id: self.group_id,
            dependent_units: unit_ids(self.dependent_units@),
            level_no: self.level_no,
            requires_tech_id: opt_tech(self.requires_tech_id),
            node_type: type_code(self.node_type),
            depends_tech_id: opt_tech(self.depends_tech_id),
        }
    }
}

/// The first fields of the unit stored at `p`: its ID, status, building and dependencies.
pub open spec fn unit_head_step(d: Seq<u8>, p: int) -> Result<((u16, int, u16, Seq<DepView>), int), ReadError> {
    match id_status_step(d, p) {
        Ok(((id, st), p2)) => match id16_step(d, p2) {
            Ok((b, p3)) => match deps_step(d, p3) {
                Ok((x, p4)) => Ok(((id, st, b, x), p4)),
                Err(e) => Err(e),
            },
            Err(e) => Err(e),
        },
        Err(e) => Err(e),
    }
}

/// The unit stored at `p`: ID, status, building, dependencies, group, dependent units,
/// level, the tech it requires, node type and the tech it depends on.
pub open spec fn unit_at(d: Seq<u8>, p: int) -> Result<(UnitView, int), ReadError> {
    match unit_head_step(d, p) {
        Ok(((id, st, b, x), p4)) => match i32_step(d, p4) {
            Ok((g, p5)) => match dependents_step(d, p5) {
                Ok((du, p6)) => match i32_step(d, p6) {
                    Ok((lv, p7)) => match opt_tech_step(d, p7) {
                        Ok((req, p8)) => match type_step(d, p8) {
                            Ok((t, p9)) => match opt_tech_step(d, p9) {
                                Ok((dep, p10)) => Ok(
                                    (
                                        UnitView {
                                            unit_id: id,
                                            status: st,
                                            building: b,
                                            prerequisites: x,
                                            group_id: g,
                                            dependent_units: du,
                                            level_no: lv,
                                            requires_tech_id: req,
                                            node_type: t,
                                            depends_tech_id: dep,
                                        },
                                        p10,
                                    ),
                                ),
                                Err(e) => Err(e),
                            },
                            Err(e) => Err(e),
                        },
                        Err(e) => Err(e),
                    },
                    Err(e) => Err(e),
                },
                Err(e) => Err(e),
            },
            Err(e) => Err(e),
        },
        Err(e) => Err(e),
    }
}

/// The bytes of the first fields of a unit: ID, status, building and dependencies.
pub open spec fn unit_head_bytes(u: UnitView) -> Seq<u8> {
    u32_bytes(u.unit_id as u32) + seq![u.status as u8] + u32_bytes(u.building as u32) + deps_bytes(
        u.prerequisites,
    )
}

/// The bytes of the other fields of a unit.
pub open spec fn unit_tail_bytes(u: UnitView) -> Seq<u8> {
    i32_bytes(u.group_id) + dependents_bytes(u.dependent_units) + i32_bytes(u.level_no)
        + opt_tech_bytes(u.requires_tech_id) + u32_bytes(u.node_type as u32) + opt_tech_bytes(
        u.depends_tech_id,
    )
}

/// The bytes a unit is stored as.
pub open spec fn unit_bytes(u: UnitView) -> Seq<u8> {
    unit_head_bytes(u) + unit_tail_bytes(u)
}

impl TechTreeUnit {
    /// Read a unit at `pos`; returns it and the position after it.
    pub fn read_from(input: &[u8], pos: usize) -> (r: Result<(Self, usize), ReadError>)
        ensures
            read_as(r, unit_at(input@, pos as int)),
    {
        let (unit_id, p) = read_id16(input, pos)?;
        let (status, p) = read_status(input, p)?;
        let (building, p) = read_id16(input, p)?;
        let (prerequisites, p) = TechTreeDependencies::read_from(input, p)?;
        let (group_id, p) = read_i32_le(input, p)?;
        let (dependent_units, p) = read_unit_dependents(input, p)?;
        let (level_no, p) = read_i32_le(input, p)?;
        let (requires_tech_id, p) = read_opt_tech(input, p)?;
        let (node_type, p) = read_node_type(input, p)?;
        let (depends_tech_id, p) = read_opt_tech(input, p)?;
        let unit = TechTreeUnit {
            unit_id: UnitTypeID::from(unit_id),
            status,
            node_type,
            depends_tech_id,
            building: UnitTypeID::from(building),
            requires_tech_id,
            dependent_units,
            prerequisites,
            group_id,
            level_no,
        };
        Ok((unit, p))
    }

    fn write_head(&self, output: &mut Vec<u8>)
        requires
            self@.status <= 255,
        ensures
            final(output)@ == old(output)@ + unit_head_bytes(self@),
    {
        put_u32_le(output, u16::from(self.unit_id) as u32);
        output.push(status_byte(self.status));
        put_u32_le(output, u16::from(self.building) as u32);
        self.prerequisites.write_to(output);
        assert(output@ =~= old(output)@ + unit_head_bytes(self@));
    }

    fn write_tail(&self, output: &mut Vec<u8>)
        ensures
            final(output)@ == old(output)@ + unit_tail_bytes(self@),
    {
        put_i32_le(output, self.group_id);
        write_unit_dependents(output, &self.dependent_units);
        put_i32_le(output, self.level_no);
        write_opt_tech(output, self.requires_tech_id);
        put_u32_le(output, self.node_type.to_i32() as u32);
        write_opt_tech(output, self.depends_tech_id);
        assert(output@ =~= old(output)@ + unit_tail_bytes(self@));
    }

    /// Append this unit to `output`. Its status must fit in a byte.
    pub fn write_to(&self, output: &mut Vec<u8>)
        requires
            self@.status <= 255,
        ensures
            final(output)@ == old(output)@ + unit_bytes(self@),
    {
        self.write_head(output);
        self.write_tail(output);
    }
}

/// A tech of the tech tree.
#[derive(Debug, Default, Clone)]
pub struct TechTreeTech {
    tech_id: TechID,
    status: TechTreeStatus,
    node_type: TechTreeType,
    building: UnitTypeID,
    dependent_buildings: Vec<UnitTypeID>,
    dependent_units: Vec<UnitTypeID>,
    dependent_techs: Vec<TechID>,
    prerequisites: TechTreeDependencies,
    group_id: i32,
    level_no: i32,
}

/// The abstract value of a tech node.
pub ghost struct TechNodeView {
    pub tech_id: u16,
    pub status: int,
    pub building: u16,
    pub lists: ListsView,
    pub group_id: i32,
    pub level_no: i32,
    pub node_type: int,
}

impl View for TechTreeTech {
    type V = TechNodeView;

    closed spec fn view(&self) -> TechNodeView {
        TechNodeView {
            tech_id: self.tech_id@,
            status: status_code(self.status),
            building: self.building@,
            lists: (
                unit_ids(self.dependent_buildings@),
                unit_ids(self.dependent_units@),
                tech_ids(self.dependent_techs@),
                self.prerequisites@,
            ),
            group_id: self.group_id,
            level_no: self.level_no,
            node_type: type_code(self.node_type),
        }
    }
}

/// The tech stored at `p`: ID, status, building, lists, group, level and node type.
pub open spec fn tech_node_at(d: Seq<u8>, p: int) -> Result<(TechNodeView, int), ReadError> {
    match id_status_step(d, p) {
        Ok(((id, st), p2)) => match id16_step(d, p2) {
            Ok((b, p3)) => match lists_step(d, p3) {
                Ok((l, p4)) => match i32_step(d, p4) {
                    Ok((g, p5)) => match i32_step(d, p5) {
                        Ok((lv, p6)) => match type_step(d, p6) {
                            Ok((t, p7)) => Ok(
                                (
                                    TechNodeView {
                                        tech_id: id,
                                        status: st,
                                        building: b,
                                        lists: l,
                                        group_id: g,
                                        level_no: lv,
                                        node_type: t,
                                    },
                                    p7,
                                ),
                            ),
                            Err(e) => Err(e),
                        },
                        Err(e) => Err(e),
                    },
                    Err(e) => Err(e),
                },
                Err(e) => Err(e),
            },
            Err(e) => Err(e),
        },
        Err(e) => Err(e),
    }
}

/// The bytes a tech node is stored as.
pub open spec fn tech_node_bytes(t: TechNodeView) -> Seq<u8> {
    u32_bytes(t.tech_id as u32) + seq![t.status as u8] + u32_bytes(t.building as u32) + lists_bytes(
        t.lists,
    ) + i32_bytes(t.group_id) + i32_bytes(t.level_no) + u32_bytes(t.node_type as u32)
}

impl TechTreeTech {
    /// Read a tech at `pos`; returns it and the position after it.
    pub fn read_from(input: &[u8], pos: usize) -> (r: Result<(Self, usize), ReadError>)
        ensures
            read_as(r, tech_node_at(input@, pos as int)),
    {
        let (tech_id, p) = read_id16(input, pos)?;
        let (status, p) = read_status(input, p)?;
        let (building, p) = read_id16(input, p)?;
        let (dependent_buildings, dependent_units, dependent_techs, prerequisites, p) = read_lists(
            input,
            p,
        )?;
        let (group_id, p) = read_i32_le(input, p)?;
        let (level_no, p) = read_i32_le(input, p)?;
        let (node_type, p) = read_node_type(input, p)?;
        let tech = TechTreeTech {
            tech_id: TechID::from(tech_id),
            status,
            node_type,
            building: UnitTypeID::from(building),
            dependent_buildings,
            dependent_units,
            dependent_techs,
            prerequisites,
            group_id,
            level_no,
        };
        Ok((tech, p))
    }

    /// Append this tech to `output`. Its status must fit in a byte.
    pub fn write_to(&self, output: &mut Vec<u8>)
        requires
            self@.status <= 255,
        ensures
            final(output)@ == old(output)@ + tech_node_bytes(self@),
    {
        put_u32_le(output, u16::from(self.tech_id) as u32);
        output.push(status_byte(self.status));
        put_u32_le(output, u16::from(self.building) as u32);
        write_lists(
            output,
            &self.dependent_buildings,
            &self.dependent_units,
            &self.dependent_techs,
            &self.prerequisites,
        );
        put_i32_le(output, self.group_id);
        put_i32_le(output, self.level_no);
        put_u32_le(output, self.node_type.to_i32() as u32);
        assert(output@ =~= old(output)@ + tech_node_bytes(self@));
    }
}

/// The views of a list of TechTreeAge nodes.
pub open spec fn age_views(v: Seq<TechTreeAge>) -> Seq<AgeView> {
    v.map_values(|a: TechTreeAge| a@)
}

/// The views of a list of TechTreeBuilding nodes.
pub open spec fn building_views(v: Seq<TechTreeBuilding>) -> Seq<BuildingView> {
    v.map_values(|a: TechTreeBuilding| a@)
}

/// The views of a list of TechTreeUnit nodes.
pub open spec fn unit_views(v: Seq<TechTreeUnit>) -> Seq<UnitView> {
    v.map_values(|a: TechTreeUnit| a@)
}

/// The views of a list of TechTreeTech nodes.
pub open spec fn tech_node_views(v: Seq<TechTreeTech>) -> Seq<TechNodeView> {
    v.map_values(|a: TechTreeTech| a@)
}

/// The first `n` ages stored one after the other from `p`, and the position after them.
pub open spec fn ages_from(d: Seq<u8>, p: int, n: nat) -> Result<(Seq<AgeView>, int), ReadError>
    decreases n,
{
    if n == 0 {
        Ok((Seq::empty(), p))
    } else {
        match ages_from(d, p, (n - 1) as nat) {
            Ok((s, q)) => match age_at(d, q) {
                Ok((x, q2)) => Ok((s.push(x), q2)),
                Err(e) => Err(e),
            },
            Err(e) => Err(e),
        }
    }
}

/// Once reading a list of ages fails, reading more of them fails the same way.
proof fn lemma_ages_from_err(d: Seq<u8>, p: int, k: nat, m: nat)
    requires
        k <= m,
        ages_from(d, p, k) is Err,
    ensures
        ages_from(d, p, m) == ages_from(d, p, k),
    decreases m - k,
{
    if k < m {
        lemma_ages_from_err(d, p, k, (m - 1) as nat);
    }
}

/// The bytes of a list of ages, one after the other.
pub open spec fn ages_bytes(s: Seq<AgeView>) -> Seq<u8>
    decreases s.len(),
{
    if s.len() == 0 {
        Seq::empty()
    } else {
        ages_bytes(s.drop_last()) + age_bytes(s.last())
    }
}

/// Read `n` ages from `pos`.
fn read_ages(input: &[u8], pos: usize, n: u8) -> (r: Result<(Vec<TechTreeAge>, usize), ReadError>)
    requires
        !ages_panic(input@, pos as int, n as nat),
    ensures
        match ages_from(input@, pos as int, n as nat) {
            Ok((v, q)) => r matches Ok((x, p)) && age_views(x@) == v && p == q,
            Err(e) => r matches Err(f) && f == e,
        },
{
    let mut list: Vec<TechTreeAge> = Vec::new();
    let mut p = pos;
    let mut k: u8 = 0;
    assert(age_views(list@) =~= Seq::<AgeView>::empty());
    while k < n
        invariant
            k <= n,
            !ages_panic(input@, pos as int, n as nat),
            ages_from(input@, pos as int, k as nat) == Ok::<(Seq<AgeView>, int), ReadError>(
                (age_views(list@), p as int),
            ),
        decreases n - k,
    {
        proof {
            lemma_ages_panic_prefix(input@, pos as int, (k + 1) as nat, n as nat);
        }
        let (x, q) = match TechTreeAge::read_from(input, p) {
            Ok(x) => x,
            Err(e) => {
                proof {
                    lemma_ages_from_err(input@, pos as int, (k + 1) as nat, n as nat);
                }
                return Err(e);
            },
        };
        let ghost before = list@;
        list.push(x);
        proof {
            assert(age_views(list@) =~= age_views(before).push(x@));
        }
        p = q;
        k = k + 1;
    }
    Ok((list, p))
}

/// Append a list of ages, one after the other. Their statuses must fit in a byte.
fn write_ages(output: &mut Vec<u8>, list: &Vec<TechTreeAge>)
    requires
        forall|i: int|
            0 <= i < list.len() ==> (#[trigger] age_views(list@)[i]).status <= 255,
    ensures
        final(output)@ == old(output)@ + ages_bytes(age_views(list@)),
{
    let ghost v = age_views(list@);
    let mut i: usize = 0;
    assert(v.take(0) =~= Seq::<AgeView>::empty());
    while i < list.len()
        invariant
            i <= list.len(),
            v == age_views(list@),
            forall|j: int| 0 <= j < v.len() ==> (#[trigger] v[j]).status <= 255,
            output@ == old(output)@ + ages_bytes(v.take(i as int)),
        decreases list.len() - i,
    {
        assert(v[i as int] == list@[i as int]@);
        list[i].write_to(output);
        proof {
            assert(v.take(i + 1).drop_last() =~= v.take(i as int));
            assert(v.take(i + 1).last() == list@[i as int]@);
        }
        i = i + 1;
        assert(output@ =~= old(output)@ + ages_bytes(v.take(i as int)));
    }
    assert(v.take(list.len() as int) =~= v);
}

/// The first `n` buildings stored one after the other from `p`, and the position after them.
pub open spec fn buildings_from(d: Seq<u8>, p: int, n: nat) -> Result<(Seq<BuildingView>, int), ReadError>
    decreases n,
{
    if n == 0 {
        Ok((Seq::empty(), p))
    } else {
        match buildings_from(d, p, (n - 1) as nat) {
            Ok((s, q)) => match building_at(d, q) {
                Ok((x, q2)) => Ok((s.push(x), q2)),
                Err(e) => Err(e),
            },
            Err(e) => Err(e),
        }
    }
}

/// Once reading a list of buildings fails, reading more of them fails the same way.
proof fn lemma_buildings_from_err(d: Seq<u8>, p: int, k: nat, m: nat)
    requires
        k <= m,
        buildings_from(d, p, k) is Err,
    ensures
        buildings_from(d, p, m) == buildings_from(d, p, k),
    decreases m - k,
{
    if k < m {
        lemma_buildings_from_err(d, p, k, (m - 1) as nat);
    }
}

/// The bytes of a list of buildings, one after the other.
pub open spec fn buildings_bytes(s: Seq<BuildingView>) -> Seq<u8>
    decreases s.len(),
{
    if s.len() == 0 {
        Seq::empty()
    } else {
        buildings_bytes(s.drop_last()) + building_bytes(s.last())
    }
}

/// Read `n` buildings from `pos`.
fn read_buildings(input: &[u8], pos: usize, n: u8) -> (r: Result<(Vec<TechTreeBuilding>, usize), ReadError>)
    ensures
        match buildings_from(input@, pos as int, n as nat) {
            Ok((v, q)) => r matches Ok((x, p)) && building_views(x@) == v && p == q,
            Err(e) => r matches Err(f) && f == e,
        },
{
    let mut list: Vec<TechTreeBuilding> = Vec::new();
    let mut p = pos;
    let mut k: u8 = 0;
    assert(building_views(list@) =~= Seq::<BuildingView>::empty());
    while k < n
        invariant
            k <= n,
            buildings_from(input@, pos as int, k as nat) == Ok::<(Seq<BuildingView>, int), ReadError>(
                (building_views(list@), p as int),
            ),
        decreases n - k,
    {
        let (x, q) = match TechTreeBuilding::read_from(input, p) {
            Ok(x) => x,
            Err(e) => {
                proof {
                    lemma_buildings_from_err(input@, pos as int, (k + 1) as nat, n as nat);
                }
                return Err(e);
            },
        };
        let ghost before = list@;
        list.push(x);
        proof {
            assert(building_views(list@) =~= building_views(before).push(x@));
        }
        p = q;
        k = k + 1;
    }
    Ok((list, p))
}

/// Append a list of buildings, one after the other. Their statuses must fit in a byte.
fn write_buildings(output: &mut Vec<u8>, list: &Vec<TechTreeBuilding>)
    requires
        forall|i: int|
            0 <= i < list.len() ==> (#[trigger] building_views(list@)[i]).status <= 255,
    ensures
        final(output)@ == old(output)@ + buildings_bytes(building_views(list@)),
{
    let ghost v = building_views(list@);
    let mut i: usize = 0;
    assert(v.take(0) =~= Seq::<BuildingView>::empty());
    while i < list.len()
        invariant
            i <= list.len(),
            v == building_views(list@),
            forall|j: int| 0 <= j < v.len() ==> (#[trigger] v[j]).status <= 255,
            output@ == old(output)@ + buildings_bytes(v.take(i as int)),
        decreases list.len() - i,
    {
        assert(v[i as int] == list@[i as int]@);
        list[i].write_to(output);
        proof {
            assert(v.take(i + 1).drop_last() =~= v.take(i as int));
            assert(v.take(i + 1).last() == list@[i as int]@);
        }
        i = i + 1;
        assert(output@ =~= old(output)@ + buildings_bytes(v.take(i as int)));
    }
    assert(v.take(list.len() as int) =~= v);
}

/// The first `n` units stored one after the other from `p`, and the position after them.
pub open spec fn units_from(d: Seq<u8>, p: int, n: nat) -> Result<(Seq<UnitView>, int), ReadError>
    decreases n,
{
    if n == 0 {
        Ok((Seq::empty(), p))
    } else {
        match units_from(d, p, (n - 1) as nat) {
            Ok((s, q)) => match unit_at(d, q) {
                Ok((x, q2)) => Ok((s.push(x), q2)),
                Err(e) => Err(e),
            },
            Err(e) => Err(e),
        }
    }
}

/// Once reading a list of units fails, reading more of them fails the same way.
proof fn lemma_units_from_err(d: Seq<u8>, p: int, k: nat, m: nat)
    requires
        k <= m,
        units_from(d, p, k) is Err,
    ensures
        units_from(d, p, m) == units_from(d, p, k),
    decreases m - k,
{
    if k < m {
        lemma_units_from_err(d, p, k, (m - 1) as nat);
    }
}

/// The bytes of a list of units, one after the other.
pub open spec fn units_bytes(s: Seq<UnitView>) -> Seq<u8>
    decreases s.len(),
{
    if s.len() == 0 {
        Seq::empty()
    } else {
        units_bytes(s.drop_last()) + unit_bytes(s.last())
    }
}

/// Read `n` units from `pos`.
fn read_units(input: &[u8], pos: usize, n: u8) -> (r: Result<(Vec<TechTreeUnit>, usize), ReadError>)
    ensures
        match units_from(input@, pos as int, n as nat) {
            Ok((v, q)) => r matches Ok((x, p)) && unit_views(x@) == v && p == q,
            Err(e) => r matches Err(f) && f == e,
        },
{
    let mut list: Vec<TechTreeUnit> = Vec::new();
    let mut p = pos;
    let mut k: u8 = 0;
    assert(unit_views(list@) =~= Seq::<UnitView>::empty());
    while k < n
        invariant
            k <= n,
            units_from(input@, pos as int, k as nat) == Ok::<(Seq<UnitView>, int), ReadError>(
                (unit_views(list@), p as int),
            ),
        decreases n - k,
    {
        let (x, q) = match TechTreeUnit::read_from(input, p) {
            Ok(x) => x,
            Err(e) => {
                proof {
                    lemma_units_from_err(input@, pos as int, (k + 1) as nat, n as nat);
                }
                return Err(e);
            },
        };
        let ghost before = list@;
        list.push(x);
        proof {
            assert(unit_views(list@) =~= unit_views(before).push(x@));
        }
        p = q;
        k = k + 1;
    }
    Ok((list, p))
}

/// Append a list of units, one after the other. Their statuses must fit in a byte.
fn write_units(output: &mut Vec<u8>, list: &Vec<TechTreeUnit>)
    requires
        forall|i: int|
            0 <= i < list.len() ==> (#[trigger] unit_views(list@)[i]).status <= 255,
    ensures
        final(output)@ == old(output)@ + units_bytes(unit_views(list@)),
{
    let ghost v = unit_views(list@);
    let mut i: usize = 0;
    assert(v.take(0) =~= Seq::<UnitView>::empty());
    while i < list.len()
        invariant
            i <= list.len(),
            v == unit_views(list@),
            forall|j: int| 0 <= j < v.len() ==> (#[trigger] v[j]).status <= 255,
            output@ == old(output)@ + units_bytes(v.take(i as int)),
        decreases list.len() - i,
    {
        assert(v[i as int] == list@[i as int]@);
        list[i].write_to(output);
        proof {
            assert(v.take(i + 1).drop_last() =~= v.take(i as int));
            assert(v.take(i + 1).last() == list@[i as int]@);
        }
        i = i + 1;
        assert(output@ =~= old(output)@ + units_bytes(v.take(i as int)));
    }
    assert(v.take(list.len() as int) =~= v);
}

/// The first `n` techs stored one after the other from `p`, and the position after them.
pub open spec fn techs_from(d: Seq<u8>, p: int, n: nat) -> Result<(Seq<TechNodeView>, int), ReadError>
    decreases n,
{
    if n == 0 {
        Ok((Seq::empty(), p))
    } else {
        match techs_from(d, p, (n - 1) as nat) {
            Ok((s, q)) => match tech_node_at(d, q) {
                Ok((x, q2)) => Ok((s.push(x), q2)),
                Err(e) => Err(e),
            },
            Err(e) => Err(e),
        }
    }
}

/// Once reading a list of techs fails, reading more of them fails the same way.
proof fn lemma_techs_from_err(d: Seq<u8>, p: int, k: nat, m: nat)
    requires
        k <= m,
        techs_from(d, p, k) is Err,
    ensures
        techs_from(d, p, m) == techs_from(d, p, k),
    decreases m - k,
{
    if k < m {
        lemma_techs_from_err(d, p, k, (m - 1) as nat);
    }
}

/// The bytes of a list of techs, one after the other.
pub open spec fn techs_bytes(s: Seq<TechNodeView>) -> Seq<u8>
    decreases s.len(),
{
    if s.len() == 0 {
        Seq::empty()
    } else {
        techs_bytes(s.drop_last()) + tech_node_bytes(s.last())
    }
}

/// Read `n` techs from `pos`.
fn read_techs(input: &[u8], pos: usize, n: u8) -> (r: Result<(Vec<TechTreeTech>, usize), ReadError>)
    ensures
        match techs_from(input@, pos as int, n as nat) {
            Ok((v, q)) => r matches Ok((x, p)) && tech_node_views(x@) == v && p == q,
            Err(e) => r matches Err(f) && f == e,
        },
{
    let mut list: Vec<TechTreeTech> = Vec::new();
    let mut p = pos;
    let mut k: u8 = 0;
    assert(tech_node_views(list@) =~= Seq::<TechNodeView>::empty());
    while k < n
        invariant
            k <= n,
            techs_from(input@, pos as int, k as nat) == Ok::<(Seq<TechNodeView>, int), ReadError>(
                (tech_node_views(list@), p as int),
            ),
        decreases n - k,
    {
        let (x, q) = match TechTreeTech::read_from(input, p) {
            Ok(x) => x,
            Err(e) => {
                proof {
                    lemma_techs_from_err(input@, pos as int, (k + 1) as nat, n as nat);
                }
                return Err(e);
            },
        };
        let ghost before = list@;
        list.push(x);
        proof {
            assert(tech_node_views(list@) =~= tech_node_views(before).push(x@));
        }
        p = q;
        k = k + 1;
    }
    Ok((list, p))
}

/// Append a list of techs, one after the other. Their statuses must fit in a byte.
fn write_techs(output: &mut Vec<u8>, list: &Vec<TechTreeTech>)
    requires
        forall|i: int|
            0 <= i < list.len() ==> (#[trigger] tech_node_views(list@)[i]).status <= 255,
    ensures
        final(output)@ == old(output)@ + techs_bytes(tech_node_views(list@)),
{
    let ghost v = tech_node_views(list@);
    let mut i: usize = 0;
    assert(v.take(0) =~= Seq::<TechNodeView>::empty());
    while i < list.len()
        invariant
            i <= list.len(),
            v == tech_node_views(list@),
            forall|j: int| 0 <= j < v.len() ==> (#[trigger] v[j]).status <= 255,
            output@ == old(output)@ + techs_bytes(v.take(i as int)),
        decreases list.len() - i,
    {
        assert(v[i as int] == list@[i as int]@);
        list[i].write_to(output);
        proof {
            assert(v.take(i + 1).drop_last() =~= v.take(i as int));
            assert(v.take(i + 1).last() == list@[i as int]@);
        }
        i = i + 1;
        assert(output@ =~= old(output)@ + techs_bytes(v.take(i as int)));
    }
    assert(v.take(list.len() as int) =~= v);
}

/// Whether reading the first `n` ages stored from `p` panics on one of them.
#[verifier::opaque]
pub open spec fn ages_panic(d: Seq<u8>, p: int, n: nat) -> bool
    decreases n,
{
    n > 0 && (ages_panic(d, p, (n - 1) as nat) || (ages_from(d, p, (n - 1) as nat) matches Ok(
        (_, q),
    ) && age_panics(d, q)))
}

/// When reading `n` ages does not panic, reading the first `k` of them does not either, nor
/// does reading the last of those.
proof fn lemma_ages_panic_prefix(d: Seq<u8>, p: int, k: nat, n: nat)
    requires
        1 <= k <= n,
        !ages_panic(d, p, n),
    ensures
        !ages_panic(d, p, k),
        ages_from(d, p, (k - 1) as nat) matches Ok((_, q)) ==> !age_panics(d, q),
    decreases n - k,
{
    reveal(ages_panic);
    if k < n {
        lemma_ages_panic_prefix(d, p, k + 1, n);
    }
    assert(!ages_panic(d, p, k));
    assert(ages_panic(d, p, k) == (ages_panic(d, p, (k - 1) as nat) || (ages_from(
        d,
        p,
        (k - 1) as nat,
    ) matches Ok((_, q)) && age_panics(d, q))));
}

/// The tech tree data.
#[derive(Debug, Default, Clone)]
pub struct TechTree {
    pub ages: Vec<TechTreeAge>,
    pub buildings: Vec<TechTreeBuilding>,
    pub units: Vec<TechTreeUnit>,
    pub techs: Vec<TechTreeTech>,
    num_groups: i32,
}

/// The abstract value of a tech tree.
pub ghost struct TreeView {
    pub ages: Seq<AgeView>,
    pub buildings: Seq<BuildingView>,
    pub units: Seq<UnitView>,
    pub techs: Seq<TechNodeView>,
    pub num_groups: i32,
}

impl View for TechTree {
    type V = TreeView;

    closed spec fn view(&self) -> TreeView {
        TreeView {
            ages: age_views(self.ages@),
            buildings: building_views(self.buildings@),
            units: unit_views(self.units@),
            techs: tech_node_views(self.techs@),
            num_groups: self.num_groups,
        }
    }
}

/// Whether reading the tech tree stored at `p` panics on one of its ages.
pub open spec fn tree_panics(d: Seq<u8>, p: int) -> bool {
    p + 8 <= d.len() && ages_panic(d, p + 8, d[p] as nat)
}

/// The tech tree stored at `p`: the numbers of ages, buildings, units and techs (a byte
/// each), the number of groups, then the nodes.
pub open spec fn tree_at(d: Seq<u8>, p: int) -> Result<(TreeView, int), ReadError> {
    if p + 8 <= d.len() {
        match ages_from(d, p + 8, d[p] as nat) {
            Ok((a, q1)) => match buildings_from(d, q1, d[p + 1] as nat) {
                Ok((b, q2)) => match units_from(d, q2, d[p + 2] as nat) {
                    Ok((u, q3)) => match techs_from(d, q3, d[p + 3] as nat) {
                        Ok((t, q4)) => Ok(
                            (
                                TreeView {
                                    ages: a,
                                    buildings: b,
                                    units: u,
                                    techs: t,
                                    num_groups: i32_at(d, p + 4),
                                },
                                q4,
                            ),
                        ),
                        Err(e) => Err(e),
                    },
                    Err(e) => Err(e),
                },
                Err(e) => Err(e),
            },
            Err(e) => Err(e),
        }
    } else {
        Err(ReadError::UnexpectedEof)
    }
}

/// The bytes a tech tree is stored as; each number of nodes is cut to a byte.
pub open spec fn tree_bytes(t: TreeView) -> Seq<u8> {
    seq![t.ages.len() as u8, t.buildings.len() as u8, t.units.len() as u8, t.techs.len() as u8]
        + i32_bytes(t.num_groups) + ages_bytes(t.ages) + buildings_bytes(t.buildings)
        + units_bytes(t.units) + techs_bytes(t.techs)
}

/// Whether every status of the nodes of a tech tree fits in a byte.
pub open spec fn tree_statuses_storable(t: TreeView) -> bool {
    &&& forall|i: int| 0 <= i < t.ages.len() ==> (#[trigger] t.ages[i]).status <= 255
    &&& forall|i: int| 0 <= i < t.buildings.len() ==> (#[trigger] t.buildings[i]).status <= 255
    &&& forall|i: int| 0 <= i < t.units.len() ==> (#[trigger] t.units[i]).status <= 255
    &&& forall|i: int| 0 <= i < t.techs.len() ==> (#[trigger] t.techs[i]).status <= 255
}

impl TechTree {
    /// Read a tech tree at `pos`; returns it and the position after it. Reading panics on an
    /// age with more than ten building levels or with the node type of something else,
    /// which `requires` rules out.
    pub fn read_from(input: &[u8], pos: usize) -> (r: Result<(Self, usize), ReadError>)
        requires
            !tree_panics(input@, pos as int),
        ensures
            read_as(r, tree_at(input@, pos as int)),
    {
        let (num_ages, p) = read_u8(input, pos)?;
        let (num_buildings, p) = read_u8(input, p)?;
        let (num_units, p) = read_u8(input, p)?;
        let (num_techs, p) = read_u8(input, p)?;
        let (num_groups, p) = read_i32_le(input, p)?;
        let (ages, p) = read_ages(input, p, num_ages)?;
        let (buildings, p) = read_buildings(input, p, num_buildings)?;
        let (units, p) = read_units(input, p, num_units)?;
        let (techs, p) = read_techs(input, p, num_techs)?;
        Ok((TechTree { ages, buildings, units, techs, num_groups }, p))
    }

    /// Append this tech tree to `output`. The statuses of its nodes must fit in a byte.
    #[verifier::spinoff_prover]
    #[verifier::rlimit(40)]
    pub fn write_to(&self, output: &mut Vec<u8>)
        requires
            tree_statuses_storable(self@),
        ensures
            final(output)@ == old(output)@ + tree_bytes(self@),
    {
        let ghost t = self@;
        assert(t.ages == age_views(self.ages@));
        assert(t.buildings == building_views(self.buildings@));
        assert(t.units == unit_views(self.units@));
        assert(t.techs == tech_node_views(self.techs@));
        output.push(self.ages.len() as u8);
        output.push(self.buildings.len() as u8);
        output.push(self.units.len() as u8);
        output.push(self.techs.len() as u8);
        put_i32_le(output, self.num_groups);
        write_ages(output, &self.ages);
        write_buildings(output, &self.buildings);
        write_units(output, &self.units);
        write_techs(output, &self.techs);
        assert(output@ =~= old(output)@ + tree_bytes(t));
    }
}


/// A `u32` field that holds a value of at most `0xFFFF` reads back as that value when read
/// as an `i32`.
proof fn lemma_small_u32_as_i32(d: Seq<u8>, q: int, v: u32)
    requires
        0 <= q,
        q + 4 <= d.len(),
        d.subrange(q, q + 4) == u32_bytes(v),
        v <= 0xFFFF,
    ensures
        i32_at(d, q) == v,
{
    lemma_pow256_values();
    lemma_u32_field(d, q, v);
    lemma_le_value_bound(d.subrange(q, q + 4));
    assert(le_at(d, q, 4) == v);
    assert(signed_of(le_at(d, q, 4), 4) == v);
}

/// A field written as `i32_bytes` reads back through `i32_step`.
proof fn lemma_i32_step(d: Seq<u8>, q: int, v: i32)
    requires
        0 <= q,
        q + 4 <= d.len(),
        d.subrange(q, q + 4) == i32_bytes(v),
    ensures
        i32_step(d, q) == Ok::<(i32, int), ReadError>((v, q + 4)),
{
    lemma_i32_field(d, q, v);
}

/// A 16-bit ID written as a `u32` reads back through `id16_step`.
proof fn lemma_id16_step(d: Seq<u8>, q: int, v: u16)
    requires
        0 <= q,
        q + 4 <= d.len(),
        d.subrange(q, q + 4) == u32_bytes(v as u32),
    ensures
        id16_step(d, q) == Ok::<(u16, int), ReadError>((v, q + 4)),
{
    lemma_small_u32_as_i32(d, q, v as u32);
}

/// A valid node type written as a `u32` reads back through `type_step`.
proof fn lemma_type_step(d: Seq<u8>, q: int, t: int)
    requires
        0 <= q,
        q + 4 <= d.len(),
        0 <= t <= 7,
        d.subrange(q, q + 4) == u32_bytes(t as u32),
    ensures
        type_step(d, q) == Ok::<(int, int), ReadError>((t, q + 4)),
{
    lemma_small_u32_as_i32(d, q, t as u32);
}

/// An optional tech written with `opt_tech_bytes` reads back through `opt_tech_step`.
proof fn lemma_opt_tech_step(d: Seq<u8>, q: int, o: Option<u16>)
    requires
        0 <= q,
        q + 4 <= d.len(),
        d.subrange(q, q + 4) == opt_tech_bytes(o),
    ensures
        opt_tech_step(d, q) == Ok::<(Option<u16>, int), ReadError>((o, q + 4)),
{
    lemma_pow256_values();
    match o {
        Some(t) => lemma_u32_field(d, q, t as u32),
        None => lemma_u32_field(d, q, 0xFFFF_FFFF),
    }
}

proof fn lemma_ids_bytes_len(s: Seq<u16>)
    ensures
        ids_bytes(s).len() == 4 * s.len(),
    decreases s.len(),
{
    lemma_field_lens();
    if s.len() > 0 {
        lemma_ids_bytes_len(s.drop_last());
    }
}

/// The IDs of a list written with `ids_bytes` read back.
proof fn lemma_ids_read(s: Seq<u16>, d: Seq<u8>, p: int)
    requires
        0 <= p,
        p + 4 * s.len() <= d.len(),
        d.subrange(p, p + 4 * s.len()) == ids_bytes(s),
    ensures
        ids_from(d, p, s.len()) == Ok::<Seq<u16>, ReadError>(s),
    decreases s.len(),
{
    lemma_field_lens();
    if s.len() > 0 {
        let k = s.len() - 1;
        lemma_ids_bytes_len(s.drop_last());
        assert(d.subrange(p, p + 4 * k) =~= ids_bytes(s).subrange(0, 4 * k));
        assert(ids_bytes(s).subrange(0, 4 * k) =~= ids_bytes(s.drop_last()));
        lemma_ids_read(s.drop_last(), d, p);
        assert(d.subrange(p + 4 * k, p + 4 * k + 4) =~= ids_bytes(s).subrange(4 * k, 4 * k + 4));
        assert(ids_bytes(s).subrange(4 * k, 4 * k + 4) =~= u32_bytes(s[k] as u32));
        lemma_id16_step(d, p + 4 * k, s[k]);
        assert(s.drop_last().push(s[k]) =~= s);
    } else {
        assert(s =~= Seq::<u16>::empty());
    }
}

/// The length of the bytes of a list of dependents.
proof fn lemma_dependents_bytes_len(s: Seq<u16>)
    ensures
        dependents_bytes(s).len() == 1 + 4 * s.len(),
{
    lemma_ids_bytes_len(s);
}

/// A list of dependents written with `dependents_bytes` reads back, if it has at most 255
/// IDs.
proof fn lemma_dependents_read(s: Seq<u16>, d: Seq<u8>, p: int)
    requires
        s.len() <= 255,
        0 <= p,
        p + 1 + 4 * s.len() <= d.len(),
        d.subrange(p, p + 1 + 4 * s.len()) == dependents_bytes(s),
    ensures
        dependents_step(d, p) == Ok::<(Seq<u16>, int), ReadError>((s, p + 1 + 4 * s.len())),
{
    reveal(dependents_step);
    lemma_ids_bytes_len(s);
    assert(d[p] == dependents_bytes(s)[0]);
    let n: int = 4 * s.len() as int;
    assert(d.subrange(p + 1, p + 1 + n) =~= dependents_bytes(s).subrange(1, 1 + n));
    assert(dependents_bytes(s).subrange(1, 1 + n) =~= ids_bytes(s));
    lemma_ids_read(s, d, p + 1);
}

/// A list of at most 255 dependents that is written reads back unchanged, wherever it
/// stands.
pub proof fn law_dependents_read_of_write(prefix: Seq<u8>, s: Seq<u16>, suffix: Seq<u8>)
    requires
        s.len() <= 255,
    ensures
        dependents_bytes(s).len() == 1 + 4 * s.len(),
        dependents_step(prefix + dependents_bytes(s) + suffix, prefix.len() as int) == Ok::<
            (Seq<u16>, int),
            ReadError,
        >((s, prefix.len() + 1 + 4 * s.len() as int)),
{
    lemma_dependents_bytes_len(s);
    let d = prefix + dependents_bytes(s) + suffix;
    let p = prefix.len() as int;
    assert(d.subrange(p, p + 1 + 4 * s.len()) =~= dependents_bytes(s));
    lemma_dependents_read(s, d, p);
}

/// A dependency block written with `deps_bytes` reads back, wherever it stands in the data.
proof fn lemma_deps_read(x: Seq<DepView>, d: Seq<u8>, p: int)
    requires
        x.len() <= 10,
        0 <= p,
        p + 84 <= d.len(),
        d.subrange(p, p + 84) == deps_bytes(x),
    ensures
        deps_step(d, p) == Ok::<(Seq<DepView>, int), ReadError>((x, p + 84)),
{
    law_dependencies_read_of_write(d.take(p), x, d.skip(p + 84));
    assert(d =~= d.take(p) + deps_bytes(x) + d.skip(p + 84));
}

/// Whether the lists of a node can be written and read back: at most 255 dependents of each
/// kind and at most ten dependencies.
pub open spec fn lists_storable(l: ListsView) -> bool {
    l.0.len() <= 255 && l.1.len() <= 255 && l.2.len() <= 255 && l.3.len() <= 10
}

/// The length of the bytes of the lists of a node.
pub open spec fn lists_len(l: ListsView) -> int {
    3 + 4 * (l.0.len() + l.1.len() + l.2.len()) as int + 84
}

proof fn lemma_lists_len(l: ListsView)
    requires
        lists_storable(l),
    ensures
        lists_bytes(l).len() == lists_len(l),
{
    lemma_dependents_bytes_len(l.0);
    lemma_dependents_bytes_len(l.1);
    lemma_dependents_bytes_len(l.2);
    law_dependencies_read_of_write(Seq::empty(), l.3, Seq::empty());
}

proof fn lemma_lists_read(l: ListsView, d: Seq<u8>, p: int)
    requires
        lists_storable(l),
        0 <= p,
        p + lists_len(l) <= d.len(),
        d.subrange(p, p + lists_len(l)) == lists_bytes(l),
    ensures
        lists_bytes(l).len() == lists_len(l),
        lists_step(d, p) == Ok::<(ListsView, int), ReadError>((l, p + lists_len(l))),
{
    lemma_dependents_bytes_len(l.0);
    lemma_dependents_bytes_len(l.1);
    lemma_dependents_bytes_len(l.2);
    law_dependencies_read_of_write(Seq::empty(), l.3, Seq::empty());
    let b = lists_bytes(l);
    let n0: int = 1 + 4 * l.0.len() as int;
    let n1: int = 1 + 4 * l.1.len() as int;
    let n2: int = 1 + 4 * l.2.len() as int;
    assert(d.subrange(p, p + n0) =~= b.subrange(0, n0));
    assert(b.subrange(0, n0) =~= dependents_bytes(l.0));
    lemma_dependents_read(l.0, d, p);
    assert(d.subrange(p + n0, p + n0 + n1) =~= b.subrange(n0, n0 + n1));
    assert(b.subrange(n0, n0 + n1) =~= dependents_bytes(l.1));
    lemma_dependents_read(l.1, d, p + n0);
    assert(d.subrange(p + n0 + n1, p + n0 + n1 + n2) =~= b.subrange(n0 + n1, n0 + n1 + n2));
    assert(b.subrange(n0 + n1, n0 + n1 + n2) =~= dependents_bytes(l.2));
    lemma_dependents_read(l.2, d, p + n0 + n1);
    assert(d.subrange(p + n0 + n1 + n2, p + n0 + n1 + n2 + 84) =~= b.subrange(
        n0 + n1 + n2,
        n0 + n1 + n2 + 84,
    ));
    assert(b.subrange(n0 + n1 + n2, n0 + n1 + n2 + 84) =~= deps_bytes(l.3));
    lemma_deps_read(l.3, d, p + n0 + n1 + n2);
}


/// Whether a status number is that of a status and fits in a byte.
pub open spec fn status_valid(s: int) -> bool {
    1 <= s <= 5 || 10 <= s <= 255
}

/// A valid status written as a byte reads back through `status_step`.
proof fn lemma_status_step(d: Seq<u8>, q: int, st: int)
    requires
        0 <= q,
        q + 1 <= d.len(),
        status_valid(st),
        d[q] == st as u8,
    ensures
        status_step(d, q) == Ok::<(int, int), ReadError>((st, q + 1)),
{
}

/// Whether an age can be written and read back unchanged: its status is valid, its lists
/// are storable, it has at most ten building levels and ten entries per zone list, and its
/// node type is that of an age.
pub open spec fn age_storable(a: AgeView) -> bool {
    &&& status_valid(a.status)
    &&& lists_storable(a.lists)
    &&& a.building_levels <= 10
    &&& a.buildings_per_zone.len() == 10
    &&& a.group_length_per_zone.len() == 10
    &&& a.node_type == 1
}

/// The number of bytes an age is stored in.
pub open spec fn age_len(a: AgeView) -> int {
    31 + lists_len(a.lists)
}

/// An age that is written reads back unchanged, without panicking, wherever it stands.
pub proof fn lemma_age_read(a: AgeView, d: Seq<u8>, p: int)
    requires
        age_storable(a),
        0 <= p,
        p + age_bytes(a).len() <= d.len(),
        d.subrange(p, p + age_bytes(a).len()) == age_bytes(a),
    ensures
        age_bytes(a).len() == age_len(a),
        !age_panics(d, p),
        age_at(d, p) == Ok::<(AgeView, int), ReadError>((a, p + age_len(a))),
{
    reveal(age_at);
    reveal(age_panics);
    lemma_field_lens();
    let l = lists_len(a.lists);
    lemma_lists_len(a.lists);
    let b = age_bytes(a);
    assert(b.len() == age_len(a));
    assert(d.subrange(p, p + 4) =~= b.subrange(0, 4));
    assert(b.subrange(0, 4) =~= i32_bytes(a.age_id));
    lemma_i32_step(d, p, a.age_id);
    assert(d[p + 4] == b[4]);
    lemma_status_step(d, p + 4, a.status);
    assert(d.subrange(p + 5, p + 5 + l) =~= b.subrange(5, 5 + l));
    assert(b.subrange(5, 5 + l) =~= lists_bytes(a.lists));
    lemma_lists_read(a.lists, d, p + 5);
    let q = p + 5 + l;
    assert(d[q] == b[5 + l]);
    assert(d.subrange(q + 1, q + 11) =~= b.subrange(6 + l, 16 + l));
    assert(b.subrange(6 + l, 16 + l) =~= a.buildings_per_zone);
    assert(d.subrange(q + 11, q + 21) =~= b.subrange(16 + l, 26 + l));
    assert(b.subrange(16 + l, 26 + l) =~= a.group_length_per_zone);
    assert(d[q + 21] == b[26 + l]);
    assert(d.subrange(q + 22, q + 26) =~= b.subrange(27 + l, 31 + l));
    assert(b.subrange(27 + l, 31 + l) =~= u32_bytes(a.node_type as u32));
    lemma_type_step(d, q + 22, a.node_type);
}

/// An age that is written reads back unchanged, without panicking, wherever it stands,
/// provided that it is storable (see `age_storable`).
pub proof fn law_age_read_of_write(prefix: Seq<u8>, a: AgeView, suffix: Seq<u8>)
    requires
        age_storable(a),
    ensures
        ({
            let d = prefix + age_bytes(a) + suffix;
            let p = prefix.len() as int;
            &&& !age_panics(d, p)
            &&& age_at(d, p) == Ok::<(AgeView, int), ReadError>((a, p + age_bytes(a).len()))
        }),
{
    lemma_lists_len(a.lists);
    lemma_field_lens();
    let d = prefix + age_bytes(a) + suffix;
    let p = prefix.len() as int;
    assert(age_bytes(a).len() == age_len(a));
    assert(d.subrange(p, p + age_len(a)) =~= age_bytes(a));
    lemma_age_read(a, d, p);
}


/// Whether a building can be written and read back unchanged.
pub open spec fn building_storable(b: BuildingView) -> bool {
    &&& status_valid(b.status)
    &&& lists_storable(b.lists)
    &&& b.total_children_by_age.len() == 5
    &&& b.initial_children_by_age.len() == 5
    &&& 0 <= b.node_type <= 7
}

/// The number of bytes a building is stored in.
pub open spec fn building_len(b: BuildingView) -> int {
    24 + lists_len(b.lists)
}

proof fn lemma_building_read(b: BuildingView, d: Seq<u8>, p: int)
    requires
        building_storable(b),
        0 <= p,
        p + building_bytes(b).len() <= d.len(),
        d.subrange(p, p + building_bytes(b).len()) == building_bytes(b),
    ensures
        building_bytes(b).len() == building_len(b),
        building_at(d, p) == Ok::<(BuildingView, int), ReadError>((b, p + building_len(b))),
{
    lemma_field_lens();
    lemma_lists_len(b.lists);
    let l = lists_len(b.lists);
    let x = building_bytes(b);
    assert(opt_tech_bytes(b.depends_tech_id).len() == 4);
    assert(x.len() == building_len(b));
    assert(d.subrange(p, p + 4) =~= x.subrange(0, 4));
    assert(x.subrange(0, 4) =~= u32_bytes(b.building_id as u32));
    lemma_id16_step(d, p, b.building_id);
    assert(d[p + 4] == x[4]);
    lemma_status_step(d, p + 4, b.status);
    assert(d.subrange(p + 5, p + 5 + l) =~= x.subrange(5, 5 + l));
    assert(x.subrange(5, 5 + l) =~= lists_bytes(b.lists));
    lemma_lists_read(b.lists, d, p + 5);
    let q = p + 5 + l;
    assert(d[q] == x[5 + l]);
    assert(d.subrange(q + 1, q + 6) =~= x.subrange(6 + l, 11 + l));
    assert(x.subrange(6 + l, 11 + l) =~= b.total_children_by_age);
    assert(d.subrange(q + 6, q + 11) =~= x.subrange(11 + l, 16 + l));
    assert(x.subrange(11 + l, 16 + l) =~= b.initial_children_by_age);
    assert(d.subrange(q + 11, q + 15) =~= x.subrange(16 + l, 20 + l));
    assert(x.subrange(16 + l, 20 + l) =~= u32_bytes(b.node_type as u32));
    lemma_type_step(d, q + 11, b.node_type);
    assert(d.subrange(q + 15, q + 19) =~= x.subrange(20 + l, 24 + l));
    assert(x.subrange(20 + l, 24 + l) =~= opt_tech_bytes(b.depends_tech_id));
    lemma_opt_tech_step(d, q + 15, b.depends_tech_id);
}

/// Whether a unit can be written and read back unchanged.
pub open spec fn unit_storable(u: UnitView) -> bool {
    &&& status_valid(u.status)
    &&& u.prerequisites.len() <= 10
    &&& u.dependent_units.len() <= 255
    &&& 0 <= u.node_type <= 7
}

/// The number of bytes a unit is stored in.
pub open spec fn unit_len(u: UnitView) -> int {
    114 + 4 * u.dependent_units.len() as int
}

proof fn lemma_unit_read(u: UnitView, d: Seq<u8>, p: int)
    requires
        unit_storable(u),
        0 <= p,
        p + unit_bytes(u).len() <= d.len(),
        d.subrange(p, p + unit_bytes(u).len()) == unit_bytes(u),
    ensures
        unit_bytes(u).len() == unit_len(u),
        unit_at(d, p) == Ok::<(UnitView, int), ReadError>((u, p + unit_len(u))),
{
    lemma_field_lens();
    law_dependencies_read_of_write(Seq::empty(), u.prerequisites, Seq::empty());
    lemma_dependents_bytes_len(u.dependent_units);
    let n: int = 1 + 4 * u.dependent_units.len() as int;
    let x = unit_bytes(u);
    assert(opt_tech_bytes(u.requires_tech_id).len() == 4);
    assert(opt_tech_bytes(u.depends_tech_id).len() == 4);
    assert(deps_bytes(u.prerequisites).len() == 84);
    assert(unit_head_bytes(u).len() == 93);
    assert(unit_tail_bytes(u).len() == 20 + n);
    assert(x.len() == unit_len(u));
    assert(d.subrange(p, p + 4) =~= x.subrange(0, 4));
    assert(x.subrange(0, 4) =~= u32_bytes(u.unit_id as u32));
    lemma_id16_step(d, p, u.unit_id);
    assert(d[p + 4] == x[4]);
    lemma_status_step(d, p + 4, u.status);
    assert(d.subrange(p + 5, p + 9) =~= x.subrange(5, 9));
    assert(x.subrange(5, 9) =~= u32_bytes(u.building as u32));
    lemma_id16_step(d, p + 5, u.building);
    assert(d.subrange(p + 9, p + 93) =~= x.subrange(9, 93));
    assert(x.subrange(9, 93) =~= deps_bytes(u.prerequisites));
    lemma_deps_read(u.prerequisites, d, p + 9);
    assert(d.subrange(p + 93, p + 97) =~= x.subrange(93, 97));
    assert(x.subrange(93, 97) =~= i32_bytes(u.group_id));
    lemma_i32_step(d, p + 93, u.group_id);
    assert(d.subrange(p + 97, p + 97 + n) =~= x.subrange(97, 97 + n));
    assert(x.subrange(97, 97 + n) =~= dependents_bytes(u.dependent_units));
    lemma_dependents_read(u.dependent_units, d, p + 97);
    let q = p + 97 + n;
    assert(d.subrange(q, q + 4) =~= x.subrange(97 + n, 101 + n));
    assert(x.subrange(97 + n, 101 + n) =~= i32_bytes(u.level_no));
    lemma_i32_step(d, q, u.level_no);
    assert(d.subrange(q + 4, q + 8) =~= x.subrange(101 + n, 105 + n));
    assert(x.subrange(101 + n, 105 + n) =~= opt_tech_bytes(u.requires_tech_id));
    lemma_opt_tech_step(d, q + 4, u.requires_tech_id);
    assert(d.subrange(q + 8, q + 12) =~= x.subrange(105 + n, 109 + n));
    assert(x.subrange(105 + n, 109 + n) =~= u32_bytes(u.node_type as u32));
    lemma_type_step(d, q + 8, u.node_type);
    assert(d.subrange(q + 12, q + 16) =~= x.subrange(109 + n, 113 + n));
    assert(x.subrange(109 + n, 113 + n) =~= opt_tech_bytes(u.depends_tech_id));
    lemma_opt_tech_step(d, q + 12, u.depends_tech_id);
}

/// Whether a tech node can be written and read back unchanged.
pub open spec fn tech_node_storable(t: TechNodeView) -> bool {
    &&& status_valid(t.status)
    &&& lists_storable(t.lists)
    &&& 0 <= t.node_type <= 7
}

/// The number of bytes a tech node is stored in.
pub open spec fn tech_node_len(t: TechNodeView) -> int {
    21 + lists_len(t.lists)
}

proof fn lemma_tech_node_read(t: TechNodeView, d: Seq<u8>, p: int)
    requires
        tech_node_storable(t),
        0 <= p,
        p + tech_node_bytes(t).len() <= d.len(),
        d.subrange(p, p + tech_node_bytes(t).len()) == tech_node_bytes(t),
    ensures
        tech_node_bytes(t).len() == tech_node_len(t),
        tech_node_at(d, p) == Ok::<(TechNodeView, int), ReadError>((t, p + tech_node_len(t))),
{
    lemma_field_lens();
    lemma_lists_len(t.lists);
    let l = lists_len(t.lists);
    let x = tech_node_bytes(t);
    assert(x.len() == tech_node_len(t));
    assert(d.subrange(p, p + 4) =~= x.subrange(0, 4));
    assert(x.subrange(0, 4) =~= u32_bytes(t.tech_id as u32));
    lemma_id16_step(d, p, t.tech_id);
    assert(d[p + 4] == x[4]);
    lemma_status_step(d, p + 4, t.status);
    assert(d.subrange(p + 5, p + 9) =~= x.subrange(5, 9));
    assert(x.subrange(5, 9) =~= u32_bytes(t.building as u32));
    lemma_id16_step(d, p + 5, t.building);
    assert(d.subrange(p + 9, p + 9 + l) =~= x.subrange(9, 9 + l));
    assert(x.subrange(9, 9 + l) =~= lists_bytes(t.lists));
    lemma_lists_read(t.lists, d, p + 9);
    let q = p + 9 + l;
    assert(d.subrange(q, q + 4) =~= x.subrange(9 + l, 13 + l));
    assert(x.subrange(9 + l, 13 + l) =~= i32_bytes(t.group_id));
    lemma_i32_step(d, q, t.group_id);
    assert(d.subrange(q + 4, q + 8) =~= x.subrange(13 + l, 17 + l));
    assert(x.subrange(13 + l, 17 + l) =~= i32_bytes(t.level_no));
    lemma_i32_step(d, q + 4, t.level_no);
    assert(d.subrange(q + 8, q + 12) =~= x.subrange(17 + l, 21 + l));
    assert(x.subrange(17 + l, 21 + l) =~= u32_bytes(t.node_type as u32));
    lemma_type_step(d, q + 8, t.node_type);
}


/// A list of ages that is written reads back unchanged.
proof fn lemma_ages_read(s: Seq<AgeView>, d: Seq<u8>, p: int)
    requires
        forall|i: int| 0 <= i < s.len() ==> age_storable(#[trigger] s[i]),
        0 <= p,
        p + ages_bytes(s).len() <= d.len(),
        d.subrange(p, p + ages_bytes(s).len()) == ages_bytes(s),
    ensures
        !ages_panic(d, p, s.len()),
        ages_from(d, p, s.len()) == Ok::<(Seq<AgeView>, int), ReadError>((s, p + ages_bytes(s).len())),
    decreases s.len(),
{
    if s.len() == 0 {
        reveal(ages_panic);
        assert(s =~= Seq::<AgeView>::empty());
    } else {
        let k = s.len() - 1;
        let s0 = s.drop_last();
        let x = s.last();
        let b0 = ages_bytes(s0);
        let bx = age_bytes(x);
        assert(ages_bytes(s) == b0 + bx);
        assert(d.subrange(p, p + b0.len()) =~= ages_bytes(s).subrange(0, b0.len() as int));
        assert(ages_bytes(s).subrange(0, b0.len() as int) =~= b0);
        assert(s0.len() == k);
        assert forall|i: int| 0 <= i < s0.len() implies age_storable(#[trigger] s0[i]) by {
            assert(s0[i] == s[i]);
        }
        lemma_ages_read(s0, d, p);
        let q = p + b0.len();
        assert(d.subrange(q, q + bx.len()) =~= ages_bytes(s).subrange(
            b0.len() as int,
            ages_bytes(s).len() as int,
        ));
        assert(ages_bytes(s).subrange(b0.len() as int, ages_bytes(s).len() as int) =~= bx);
        assert(age_storable(s[k]));
        lemma_age_read(x, d, q);
        reveal(ages_panic);
        assert(!ages_panic(d, p, s.len()));
        assert(s0.push(x) =~= s);
    }
}

/// A list of buildings that is written reads back unchanged.
proof fn lemma_buildings_read(s: Seq<BuildingView>, d: Seq<u8>, p: int)
    requires
        forall|i: int| 0 <= i < s.len() ==> building_storable(#[trigger] s[i]),
        0 <= p,
        p + buildings_bytes(s).len() <= d.len(),
        d.subrange(p, p + buildings_bytes(s).len()) == buildings_bytes(s),
    ensures
        buildings_from(d, p, s.len()) == Ok::<(Seq<BuildingView>, int), ReadError>((s, p + buildings_bytes(s).len())),
    decreases s.len(),
{
    if s.len() == 0 {
        assert(s =~= Seq::<BuildingView>::empty());
    } else {
        let k = s.len() - 1;
        let s0 = s.drop_last();
        let x = s.last();
        let b0 = buildings_bytes(s0);
        let bx = building_bytes(x);
        assert(buildings_bytes(s) == b0 + bx);
        assert(d.subrange(p, p + b0.len()) =~= buildings_bytes(s).subrange(0, b0.len() as int));
        assert(buildings_bytes(s).subrange(0, b0.len() as int) =~= b0);
        assert(s0.len() == k);
        assert forall|i: int| 0 <= i < s0.len() implies building_storable(#[trigger] s0[i]) by {
            assert(s0[i] == s[i]);
        }
        lemma_buildings_read(s0, d, p);
        let q = p + b0.len();
        assert(d.subrange(q, q + bx.len()) =~= buildings_bytes(s).subrange(
            b0.len() as int,
            buildings_bytes(s).len() as int,
        ));
        assert(buildings_bytes(s).subrange(b0.len() as int, buildings_bytes(s).len() as int) =~= bx);
        assert(building_storable(s[k]));
        lemma_building_read(x, d, q);
        assert(s0.push(x) =~= s);
    }
}

/// A list of units that is written reads back unchanged.
proof fn lemma_units_read(s: Seq<UnitView>, d: Seq<u8>, p: int)
    requires
        forall|i: int| 0 <= i < s.len() ==> unit_storable(#[trigger] s[i]),
        0 <= p,
        p + units_bytes(s).len() <= d.len(),
        d.subrange(p, p + units_bytes(s).len()) == units_bytes(s),
    ensures
        units_from(d, p, s.len()) == Ok::<(Seq<UnitView>, int), ReadError>((s, p + units_bytes(s).len())),
    decreases s.len(),
{
    if s.len() == 0 {
        assert(s =~= Seq::<UnitView>::empty());
    } else {
        let k = s.len() - 1;
        let s0 = s.drop_last();
        let x = s.last();
        let b0 = units_bytes(s0);
        let bx = unit_bytes(x);
        assert(units_bytes(s) == b0 + bx);
        assert(d.subrange(p, p + b0.len()) =~= units_bytes(s).subrange(0, b0.len() as int));
        assert(units_bytes(s).subrange(0, b0.len() as int) =~= b0);
        assert(s0.len() == k);
        assert forall|i: int| 0 <= i < s0.len() implies unit_storable(#[trigger] s0[i]) by {
            assert(s0[i] == s[i]);
        }
        lemma_units_read(s0, d, p);
        let q = p + b0.len();
        assert(d.subrange(q, q + bx.len()) =~= units_bytes(s).subrange(
            b0.len() as int,
            units_bytes(s).len() as int,
        ));
        assert(units_bytes(s).subrange(b0.len() as int, units_bytes(s).len() as int) =~= bx);
        assert(unit_storable(s[k]));
        lemma_unit_read(x, d, q);
        assert(s0.push(x) =~= s);
    }
}

/// A list of techs that is written reads back unchanged.
proof fn lemma_techs_read(s: Seq<TechNodeView>, d: Seq<u8>, p: int)
    requires
        forall|i: int| 0 <= i < s.len() ==> tech_node_storable(#[trigger] s[i]),
        0 <= p,
        p + techs_bytes(s).len() <= d.len(),
        d.subrange(p, p + techs_bytes(s).len()) == techs_bytes(s),
    ensures
        techs_from(d, p, s.len()) == Ok::<(Seq<TechNodeView>, int), ReadError>((s, p + techs_bytes(s).len())),
    decreases s.len(),
{
    if s.len() == 0 {
        assert(s =~= Seq::<TechNodeView>::empty());
    } else {
        let k = s.len() - 1;
        let s0 = s.drop_last();
        let x = s.last();
        let b0 = techs_bytes(s0);
        let bx = tech_node_bytes(x);
        assert(techs_bytes(s) == b0 + bx);
        assert(d.subrange(p, p + b0.len()) =~= techs_bytes(s).subrange(0, b0.len() as int));
        assert(techs_bytes(s).subrange(0, b0.len() as int) =~= b0);
        assert(s0.len() == k);
        assert forall|i: int| 0 <= i < s0.len() implies tech_node_storable(#[trigger] s0[i]) by {
            assert(s0[i] == s[i]);
        }
        lemma_techs_read(s0, d, p);
        let q = p + b0.len();
        assert(d.subrange(q, q + bx.len()) =~= techs_bytes(s).subrange(
            b0.len() as int,
            techs_bytes(s).len() as int,
        ));
        assert(techs_bytes(s).subrange(b0.len() as int, techs_bytes(s).len() as int) =~= bx);
        assert(tech_node_storable(s[k]));
        lemma_tech_node_read(x, d, q);
        assert(s0.push(x) =~= s);
    }
}

/// Whether a tech tree can be written and read back unchanged: at most 255 nodes of each
/// kind, each of them storable (see `age_storable` and the like).
pub open spec fn tree_storable(t: TreeView) -> bool {
    &&& t.ages.len() <= 255
    &&& t.buildings.len() <= 255
    &&& t.units.len() <= 255
    &&& t.techs.len() <= 255
    &&& forall|i: int| 0 <= i < t.ages.len() ==> age_storable(#[trigger] t.ages[i])
    &&& forall|i: int| 0 <= i < t.buildings.len() ==> building_storable(#[trigger] t.buildings[i])
    &&& forall|i: int| 0 <= i < t.units.len() ==> unit_storable(#[trigger] t.units[i])
    &&& forall|i: int| 0 <= i < t.techs.len() ==> tech_node_storable(#[trigger] t.techs[i])
}

/// A tech tree that is written reads back unchanged, without panicking, wherever it stands,
/// provided that it is storable (see `tree_storable`).
#[verifier::spinoff_prover]
#[verifier::rlimit(80)]
pub proof fn law_tree_read_of_write(prefix: Seq<u8>, t: TreeView, suffix: Seq<u8>)
    requires
        tree_storable(t),
    ensures
        ({
            let d = prefix + tree_bytes(t) + suffix;
            let p = prefix.len() as int;
            &&& !tree_panics(d, p)
            &&& tree_at(d, p) == Ok::<(TreeView, int), ReadError>((t, p + tree_bytes(t).len()))
        }),
{
    lemma_field_lens();
    let d = prefix + tree_bytes(t) + suffix;
    let p = prefix.len() as int;
    let x = tree_bytes(t);
    let ba = ages_bytes(t.ages);
    let bb = buildings_bytes(t.buildings);
    let bu = units_bytes(t.units);
    let bt = techs_bytes(t.techs);
    let q1 = p + 8 + ba.len();
    let q2 = q1 + bb.len();
    let q3 = q2 + bu.len();
    let q4 = q3 + bt.len();
    assert(x.len() == 8 + ba.len() + bb.len() + bu.len() + bt.len());
    assert(d[p] == t.ages.len() as u8);
    assert(d[p + 1] == t.buildings.len() as u8);
    assert(d[p + 2] == t.units.len() as u8);
    assert(d[p + 3] == t.techs.len() as u8);
    assert(d.subrange(p + 4, p + 8) =~= i32_bytes(t.num_groups));
    lemma_i32_field(d, p + 4, t.num_groups);
    assert(d.subrange(p + 8, q1) =~= ba);
    lemma_ages_read(t.ages, d, p + 8);
    assert(d.subrange(q1, q2) =~= bb);
    lemma_buildings_read(t.buildings, d, q1);
    assert(d.subrange(q2, q3) =~= bu);
    lemma_units_read(t.units, d, q2);
    assert(d.subrange(q3, q4) =~= bt);
    lemma_techs_read(t.techs, d, q3);
    assert(tree_at(d, p) == Ok::<(TreeView, int), ReadError>((t, q4)));
}
} // verus!
