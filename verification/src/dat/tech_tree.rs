//! Types related to the tech tree data.
use crate::codec::{
    i32_at, i32_bytes, lemma_field_lens, lemma_i32_field, put_i32_le, put_u32_le, read_i32_le,
    read_u32_le, read_u8, u32_at, u32_bytes, ReadError,
};
use crate::dat::ids::{CivilizationID, TechID, UnitTypeID};
use arrayvec::ArrayVec;
use vstd::prelude::*;

verus! {

/// The status of a building, unit or technology in the tech tree.
#[derive(Debug, Clone, Copy, PartialEq, Eq)]
pub enum TechTreeStatus {
    /// No status.
    Unknown,
    /// This building/unit/technology is available to the player.
    AvailablePlayer,
    /// This building/unit/technology is not available to the player.
    NotAvailablePlayer,
    /// Researching or constructing or creating.
    Researching,
    /// Researched or built.
    ResearchedCompleted,
    /// This building/unit/technology is available to the player if someone on their team is this
    /// civilization.
    AvailableTeam { civilization_id: CivilizationID },
}

impl Default for TechTreeStatus {
    fn default() -> (s: Self)
        ensures
            s == TechTreeStatus::Unknown,
    {
        TechTreeStatus::Unknown
    }
}

/// An invalid tech tree node status (must be 1-5, or 10 and more).
#[derive(Debug, Clone, Copy, PartialEq, Eq)]
pub struct ParseTechTreeStatusError(pub u8);

/// The number that a status is stored as.
pub open spec fn status_code(s: TechTreeStatus) -> int {
    match s {
        TechTreeStatus::Unknown => 1,
        TechTreeStatus::AvailablePlayer => 2,
        TechTreeStatus::NotAvailablePlayer => 3,
        TechTreeStatus::Researching => 4,
        TechTreeStatus::ResearchedCompleted => 5,
        TechTreeStatus::AvailableTeam { civilization_id } => civilization_id@ + 10,
    }
}

impl TechTreeStatus {
    /// The status stored as `n`: 1 to 5 for the plain statuses, and 10 and more for the
    /// team's civilization `n - 10`.
    pub fn try_from(n: u8) -> (r: Result<Self, ParseTechTreeStatusError>)
        ensures
            match r {
                Ok(s) => 1 <= n <= 5 || n >= 10,
                Err(e) => !(1 <= n <= 5 || n >= 10) && e == ParseTechTreeStatusError(n),
            },
            r matches Ok(s) ==> status_code(s) == n,
    {
        match n {
            1 => Ok(TechTreeStatus::Unknown),
            2 => Ok(TechTreeStatus::AvailablePlayer),
            3 => Ok(TechTreeStatus::NotAvailablePlayer),
            4 => Ok(TechTreeStatus::Researching),
            5 => Ok(TechTreeStatus::ResearchedCompleted),
            10..=255 => Ok(TechTreeStatus::AvailableTeam { civilization_id: CivilizationID::from((n - 10) as u16) }),
            n => Err(ParseTechTreeStatusError(n)),
        }
    }

    /// The number that this status is stored as; a team's civilization must be at most 245
    /// for it to fit.
    pub fn to_u8(self) -> (n: u8)
        requires
            self matches TechTreeStatus::AvailableTeam { civilization_id } ==> civilization_id@ <= 245,
        ensures
            n == status_code(self),
    {
        match self {
            TechTreeStatus::Unknown => 1,
            TechTreeStatus::AvailablePlayer => 2,
            TechTreeStatus::NotAvailablePlayer => 3,
            TechTreeStatus::Researching => 4,
            TechTreeStatus::ResearchedCompleted => 5,
            TechTreeStatus::AvailableTeam { civilization_id } => {
                let c: u16 = civilization_id.into();
                c as u8 + 10
            },
        }
    }
}

/// The numbers 1 to 5 and 10 and up each stand for exactly one status: reading a number and
/// storing the status gives the number back, and two statuses stored as the same number are
/// the same status.
pub proof fn law_status_code_roundtrip(a: TechTreeStatus, b: TechTreeStatus, n: u8)
    ensures
        (1 <= n <= 5 || n >= 10) ==> exists|t: TechTreeStatus| status_code(t) == n,
        status_code(a) == status_code(b) ==> a == b,
{
    CivilizationID::lemma_view_bijective(0);
    if n >= 10 {
        CivilizationID::lemma_view_bijective((n - 10) as u16);
        let c = choose|c: CivilizationID| c@ == (n - 10) as u16;
        assert(status_code(TechTreeStatus::AvailableTeam { civilization_id: c }) == n);
    } else if n == 1 {
        assert(status_code(TechTreeStatus::Unknown) == n);
    } else if n == 2 {
        assert(status_code(TechTreeStatus::AvailablePlayer) == n);
    } else if n == 3 {
        assert(status_code(TechTreeStatus::NotAvailablePlayer) == n);
    } else if n == 4 {
        assert(status_code(TechTreeStatus::Researching) == n);
    } else if n == 5 {
        assert(status_code(TechTreeStatus::ResearchedCompleted) == n);
    }
}

/// Kinds of tech tree nodes.
#[derive(Debug, Clone, Copy, PartialEq, Eq)]
pub enum TechTreeType {
    Unknown,
    Age,
    Unit,
    UnitUpgrade,
    Research,
    BuildingTech,
    BuildingNonTech,
    UniqueUnit,
}

impl Default for TechTreeType {
    fn default() -> (t: Self)
        ensures
            t == TechTreeType::Unknown,
    {
        TechTreeType::Unknown
    }
}

/// An invalid tech tree node type (must be 0-7).
#[derive(Debug, Clone, Copy, PartialEq, Eq)]
pub struct ParseTechTreeTypeError(pub i32);

/// The number that a node type is stored as.
pub open spec fn type_code(t: TechTreeType) -> int {
    match t {
        TechTreeType::Unknown => 0,
        TechTreeType::Age => 1,
        TechTreeType::Unit => 2,
        TechTreeType::UnitUpgrade => 3,
        TechTreeType::Research => 4,
        TechTreeType::BuildingTech => 5,
        TechTreeType::BuildingNonTech => 6,
        TechTreeType::UniqueUnit => 7,
    }
}

impl TechTreeType {
    /// The node type stored as `n` (0 to 7).
    pub fn try_from(n: i32) -> (r: Result<Self, ParseTechTreeTypeError>)
        ensures
            match r {
                Ok(t) => type_code(t) == n,
                Err(e) => !(0 <= n <= 7) && e == ParseTechTreeTypeError(n),
            },
    {
        match n {
            0 => Ok(TechTreeType::Unknown),
            1 => Ok(TechTreeType::Age),
            2 => Ok(TechTreeType::Unit),
            3 => Ok(TechTreeType::UnitUpgrade),
            4 => Ok(TechTreeType::Research),
            5 => Ok(TechTreeType::BuildingTech),
            6 => Ok(TechTreeType::BuildingNonTech),
            7 => Ok(TechTreeType::UniqueUnit),
            n => Err(ParseTechTreeTypeError(n)),
        }
    }

    /// The number that this node type is stored as.
    pub fn to_i32(self) -> (n: i32)
        ensures
            n == type_code(self),
    {
        match self {
            TechTreeType::Unknown => 0,
            TechTreeType::Age => 1,
            TechTreeType::Unit => 2,
            TechTreeType::UnitUpgrade => 3,
            TechTreeType::Research => 4,
            TechTreeType::BuildingTech => 5,
            TechTreeType::BuildingNonTech => 6,
            TechTreeType::UniqueUnit => 7,
        }
    }
}

/// The kinds of dependencies of tech tree nodes.
#[derive(Debug, Clone, Copy, PartialEq, Eq)]
pub enum TechTreeDependencyType {
    Age,
    Building,
    Unit,
    Research,
}

/// An invalid tech tree dependency type (must be 0-3).
#[derive(Debug, Clone, Copy, PartialEq, Eq)]
pub struct ParseTechTreeDependencyTypeError(pub i32);

/// The number that a dependency type is stored as.
pub open spec fn dependency_code(t: TechTreeDependencyType) -> int {
    match t {
        TechTreeDependencyType::Age => 0,
        TechTreeDependencyType::Building => 1,
        TechTreeDependencyType::Unit => 2,
        TechTreeDependencyType::Research => 3,
    }
}

impl TechTreeDependencyType {
    /// The dependency type stored as `n` (0 to 3).
    pub fn try_from(n: i32) -> (r: Result<Self, ParseTechTreeDependencyTypeError>)
        ensures
            match r {
                Ok(t) => dependency_code(t) == n,
                Err(e) => !(0 <= n <= 3) && e == ParseTechTreeDependencyTypeError(n),
            },
    {
        match n {
            0 => Ok(TechTreeDependencyType::Age),
            1 => Ok(TechTreeDependencyType::Building),
            2 => Ok(TechTreeDependencyType::Unit),
            3 => Ok(TechTreeDependencyType::Research),
            n => Err(ParseTechTreeDependencyTypeError(n)),
        }
    }
}


/// A dependency of a tech tree node.
#[derive(Debug, Clone, Copy)]
pub enum TechTreeDependency {
    /// A dependency on an age being researched. The data file format has space for 32 bits,
    /// and some data files in the wild hold much higher "age" IDs than there are ages.
    Age(i32),
    /// A dependency on a building.
    Building(UnitTypeID),
    /// A dependency on a unit.
    Unit(UnitTypeID),
    /// A dependency on a research/tech.
    Research(TechID),
}

/// The abstract value of a [`TechTreeDependency`].
pub ghost enum DepView {
    Age(i32),
    Building(u16),
    Unit(u16),
    Research(u16),
}

impl View for TechTreeDependency {
    type V = DepView;

    open spec fn view(&self) -> DepView {
        match self {
            TechTreeDependency::Age(id) => DepView::Age(*id),
            TechTreeDependency::Building(id) => DepView::Building(id@),
            TechTreeDependency::Unit(id) => DepView::Unit(id@),
            TechTreeDependency::Research(id) => DepView::Research(id@),
        }
    }
}

/// The number that the kind of a dependency is stored as.
pub open spec fn dep_type_code(d: DepView) -> i32 {
    match d {
        DepView::Age(_) => 0,
        DepView::Building(_) => 1,
        DepView::Unit(_) => 2,
        DepView::Research(_) => 3,
    }
}

/// The ID that a dependency is stored with.
pub open spec fn dep_raw_id(d: DepView) -> i32 {
    match d {
        DepView::Age(id) => id,
        DepView::Building(id) => id as i32,
        DepView::Unit(id) => id as i32,
        DepView::Research(id) => id as i32,
    }
}

impl TechTreeDependency {
    /// The kind of this dependency.
    fn dependency_type(&self) -> (t: TechTreeDependencyType)
        ensures
            dependency_code(t) == dep_type_code(self@),
    {
        match self {
            TechTreeDependency::Age(_) => TechTreeDependencyType::Age,
            TechTreeDependency::Building(_) => TechTreeDependencyType::Building,
            TechTreeDependency::Unit(_) => TechTreeDependencyType::Unit,
            TechTreeDependency::Research(_) => TechTreeDependencyType::Research,
        }
    }

    /// The ID that this dependency is stored with.
    fn raw_id(&self) -> (n: i32)
        ensures
            n == dep_raw_id(self@),
    {
        match *self {
            TechTreeDependency::Age(id) => id,
            TechTreeDependency::Building(id) => u16::from(id) as i32,
            TechTreeDependency::Unit(id) => u16::from(id) as i32,
            TechTreeDependency::Research(id) => u16::from(id) as i32,
        }
    }
}

impl TechTreeDependencyType {
    /// The number that this dependency type is stored as.
    pub fn to_i32(self) -> (n: i32)
        ensures
            n == dependency_code(self),
    {
        match self {
            TechTreeDependencyType::Age => 0,
            TechTreeDependencyType::Building => 1,
            TechTreeDependencyType::Unit => 2,
            TechTreeDependencyType::Research => 3,
        }
    }
}

/// A 16-bit ID stored as an `i32`: refused as invalid data when it does not fit.
pub open spec fn id16_of(n: i32) -> Result<u16, ReadError> {
    if 0 <= n <= 0xFFFF {
        Ok(n as u16)
    } else {
        Err(ReadError::InvalidData)
    }
}

/// Convert a stored `i32` to a 16-bit ID.
fn id16_from_i32(n: i32) -> (r: Result<u16, ReadError>)
    ensures
        r == id16_of(n),
{
    if 0 <= n && n <= 0xFFFF {
        Ok(n as u16)
    } else {
        Err(ReadError::InvalidData)
    }
}

/// The dependency stored with the kind `ty` and the ID `id`.
pub open spec fn dep_of(ty: i32, id: i32) -> Result<DepView, ReadError> {
    if ty == 0 {
        Ok(DepView::Age(id))
    } else if ty == 1 {
        match id16_of(id) {
            Ok(n) => Ok(DepView::Building(n)),
            Err(e) => Err(e),
        }
    } else if ty == 2 {
        match id16_of(id) {
            Ok(n) => Ok(DepView::Unit(n)),
            Err(e) => Err(e),
        }
    } else if ty == 3 {
        match id16_of(id) {
            Ok(n) => Ok(DepView::Research(n)),
            Err(e) => Err(e),
        }
    } else {
        Err(ReadError::InvalidData)
    }
}

/// The first `n` dependencies of the block at `p`: ten IDs stored from `p + 4`, ten kinds
/// from `p + 44`. The first that cannot be converted gives the error.
pub open spec fn deps_from(d: Seq<u8>, p: int, n: nat) -> Result<Seq<DepView>, ReadError>
    decreases n,
{
    if n == 0 {
        Ok(Seq::empty())
    } else {
        match deps_from(d, p, (n - 1) as nat) {
            Ok(s) => match dep_of(i32_at(d, p + 44 + 4 * (n - 1)), i32_at(d, p + 4 + 4 * (n - 1))) {
                Ok(x) => Ok(s.push(x)),
                Err(e) => Err(e),
            },
            Err(e) => Err(e),
        }
    }
}

/// The dependencies block stored at `p`: a count, three bytes of padding, ten IDs and ten
/// kinds, 84 bytes in all. At most ten of the count are read.
#[verifier::opaque]
pub open spec fn deps_step(d: Seq<u8>, p: int) -> Result<(Seq<DepView>, int), ReadError> {
    if p + 84 <= d.len() {
        match deps_from(d, p, if d[p] <= 10 { d[p] as nat } else { 10 }) {
            Ok(s) => Ok((s, p + 84)),
            Err(e) => Err(e),
        }
    } else {
        Err(ReadError::UnexpectedEof)
    }
}

/// The bytes of a list of `i32` fields, one after the other.
pub open spec fn i32s_bytes(v: Seq<i32>) -> Seq<u8>
    decreases v.len(),
{
    if v.len() == 0 {
        Seq::empty()
    } else {
        i32s_bytes(v.drop_last()) + i32_bytes(v.last())
    }
}

/// Field `i` of a list of `i32` fields that starts at `base`.
pub open spec fn i32_slot(data: Seq<u8>, base: int, i: int) -> i32 {
    i32_at(data, base + 4 * i)
}

/// The ten IDs of a dependency block: each dependency's ID, then zeros.
pub open spec fn dep_ids(s: Seq<DepView>) -> Seq<i32> {
    Seq::new(10, |i: int| if i < s.len() { dep_raw_id(s[i]) } else { 0 })
}

/// The ten kinds of a dependency block: each dependency's kind, then zeros.
pub open spec fn dep_types(s: Seq<DepView>) -> Seq<i32> {
    Seq::new(10, |i: int| if i < s.len() { dep_type_code(s[i]) } else { 0 })
}

/// The 84 bytes a block of at most ten dependencies is stored as.
pub open spec fn deps_bytes(s: Seq<DepView>) -> Seq<u8> {
    seq![s.len() as u8, 0u8, 0u8, 0u8] + i32s_bytes(dep_ids(s)) + i32s_bytes(dep_types(s))
}

proof fn lemma_i32s_len(v: Seq<i32>)
    ensures
        i32s_bytes(v).len() == 4 * v.len(),
    decreases v.len(),
{
    lemma_field_lens();
    if v.len() > 0 {
        lemma_i32s_len(v.drop_last());
    }
}

/// Each field of a list of `i32` fields reads back the value written into it.
proof fn lemma_i32s_read(v: Seq<i32>, data: Seq<u8>, base: int)
    requires
        0 <= base,
        base + 4 * v.len() <= data.len(),
        data.subrange(base, base + 4 * v.len()) == i32s_bytes(v),
    ensures
        forall|i: int| 0 <= i < v.len() ==> #[trigger] i32_slot(data, base, i) == v[i],
    decreases v.len(),
{
    lemma_field_lens();
    if v.len() > 0 {
        let k = v.len() - 1;
        lemma_i32s_len(v.drop_last());
        assert(data.subrange(base, base + 4 * k) =~= i32s_bytes(v).subrange(0, 4 * k));
        assert(i32s_bytes(v).subrange(0, 4 * k) =~= i32s_bytes(v.drop_last()));
        lemma_i32s_read(v.drop_last(), data, base);
        assert(data.subrange(base + 4 * k, base + 4 * k + 4) =~= i32s_bytes(v).subrange(
            4 * k,
            4 * k + 4,
        ));
        assert(i32s_bytes(v).subrange(4 * k, 4 * k + 4) =~= i32_bytes(v[k]));
        lemma_i32_field(data, base + 4 * k, v[k]);
        assert forall|i: int| 0 <= i < v.len() implies #[trigger] i32_slot(data, base, i) == v[i] by {
            if i < k {
                assert(i32_slot(data, base, i) == v.drop_last()[i]);
            }
        }
    }
}

/// The dependencies held by a tech tree node, in order.
pub uninterp spec fn held_dependencies(v: ArrayVec<TechTreeDependency, 10>) -> Seq<DepView>;

/// `ArrayVec::new`: an empty list of dependencies.
#[verifier::external_body]
fn deps_new() -> (v: ArrayVec<TechTreeDependency, 10>)
    ensures
        held_dependencies(v) == Seq::<DepView>::empty(),
{
    ArrayVec::new()
}

/// `ArrayVec::push`: appends a dependency; it panics on a full list, which `requires` rules
/// out.
#[verifier::external_body]
fn deps_push(v: &mut ArrayVec<TechTreeDependency, 10>, d: TechTreeDependency)
    requires
        held_dependencies(*old(v)).len() < 10,
    ensures
        held_dependencies(*final(v)) == held_dependencies(*old(v)).push(d@),
{
    v.push(d)
}

/// `ArrayVec::len`: the number of dependencies, never more than the capacity of 10.
#[verifier::external_body]
fn deps_len(v: &ArrayVec<TechTreeDependency, 10>) -> (n: usize)
    ensures
        n == held_dependencies(*v).len(),
        n <= 10,
{
    v.len()
}

/// `ArrayVec::as_slice` indexed at `i`: the dependency at that place.
#[verifier::external_body]
fn deps_get(v: &ArrayVec<TechTreeDependency, 10>, i: usize) -> (d: TechTreeDependency)
    requires
        i < held_dependencies(*v).len(),
    ensures
        d@ == held_dependencies(*v)[i as int],
{
    v.as_slice()[i]
}

/// The dependencies of a tech tree node: at most ten.
#[derive(Debug, Default, Clone)]
pub struct TechTreeDependencies(ArrayVec<TechTreeDependency, 10>);

impl View for TechTreeDependencies {
    type V = Seq<DepView>;

    closed spec fn view(&self) -> Seq<DepView> {
        held_dependencies(self.0)
    }
}

/// A result of a reader matches the result of a spec reader on the values' views.
pub open spec fn read_as<T: View>(r: Result<(T, usize), ReadError>, s: Result<(T::V, int), ReadError>) -> bool {
    match s {
        Ok((v, q)) => r matches Ok((x, p)) && x@ == v && p == q,
        Err(e) => r matches Err(f) && f == e,
    }
}

/// Once reading the dependencies of a block fails, reading more of them fails the same way.
proof fn lemma_deps_from_err(d: Seq<u8>, p: int, k: nat, m: nat)
    requires
        k <= m,
        deps_from(d, p, k) is Err,
    ensures
        deps_from(d, p, m) == deps_from(d, p, k),
    decreases m - k,
{
    if k < m {
        lemma_deps_from_err(d, p, k, (m - 1) as nat);
    }
}

/// Read dependency `k` of the block at `pos`.
fn read_dependency(input: &[u8], pos: usize, k: usize) -> (r: Result<TechTreeDependency, ReadError>)
    requires
        k < 10,
        pos + 84 <= input.len(),
    ensures
        match dep_of(i32_at(input@, pos + 44 + 4 * k), i32_at(input@, pos + 4 + 4 * k)) {
            Ok(x) => r matches Ok(y) && y@ == x,
            Err(e) => r == Err::<TechTreeDependency, ReadError>(e),
        },
{
    let (id, _) = read_i32_le(input, pos + 4 + 4 * k)?;
    let (ty, _) = read_i32_le(input, pos + 44 + 4 * k)?;
    match TechTreeDependencyType::try_from(ty) {
        Ok(TechTreeDependencyType::Age) => Ok(TechTreeDependency::Age(id)),
        Ok(TechTreeDependencyType::Building) => {
            let n = id16_from_i32(id)?;
            Ok(TechTreeDependency::Building(UnitTypeID::from(n)))
        },
        Ok(TechTreeDependencyType::Unit) => {
            let n = id16_from_i32(id)?;
            Ok(TechTreeDependency::Unit(UnitTypeID::from(n)))
        },
        Ok(TechTreeDependencyType::Research) => {
            let n = id16_from_i32(id)?;
            Ok(TechTreeDependency::Research(TechID::from(n)))
        },
        Err(_) => Err(ReadError::InvalidData),
    }
}

impl TechTreeDependencies {
    /// Read a block of dependencies at `pos`; returns them and the position after the block.
    pub fn read_from(input: &[u8], pos: usize) -> (r: Result<(Self, usize), ReadError>)
        ensures
            read_as(r, deps_step(input@, pos as int)),
    {
        proof {
            reveal(deps_step);
        }
        if pos > input.len() || input.len() - pos < 84 {
            return Err(ReadError::UnexpectedEof);
        }
        let num = input[pos];
        let count: usize = if num <= 10 { num as usize } else { 10 };
        let mut deps = deps_new();
        let mut k: usize = 0;
        while k < count
            invariant
                count <= 10,
                count as nat == (if input@[pos as int] <= 10 {
                    input@[pos as int] as nat
                } else {
                    10
                }),
                k <= count,
                pos + 84 <= input.len(),
                deps_from(input@, pos as int, k as nat) == Ok::<Seq<DepView>, ReadError>(
                    held_dependencies(deps),
                ),
                held_dependencies(deps).len() == k,
            decreases count - k,
        {
            let dep = match read_dependency(input, pos, k) {
                Ok(d) => d,
                Err(e) => {
                    proof {
                        reveal(deps_step);
                        assert(deps_from(input@, pos as int, (k + 1) as nat) == Err::<
                            Seq<DepView>,
                            ReadError,
                        >(e));
                        lemma_deps_from_err(input@, pos as int, (k + 1) as nat, count as nat);
                        assert(count as nat == (if input@[pos as int] <= 10 {
                            input@[pos as int] as nat
                        } else {
                            10
                        }));
                    }
                    return Err(e);
                },
            };
            deps_push(&mut deps, dep);
            k = k + 1;
        }
        Ok((TechTreeDependencies(deps), pos + 84))
    }

    /// Append this block of dependencies to `output`: the count, padding, ten IDs and ten
    /// kinds, with zeros in the places left over.
    pub fn write_to(&self, output: &mut Vec<u8>)
        ensures
            final(output)@ == old(output)@ + deps_bytes(self@),
    {
        let ghost s = self@;
        let n = deps_len(&self.0);
        output.push(n as u8);
        output.push(0u8);
        output.push(0u8);
        output.push(0u8);
        let ghost head = output@;
        let mut i: usize = 0;
        assert(dep_ids(s).take(0) =~= Seq::<i32>::empty());
        while i < 10
            invariant
                i <= 10,
                n == s.len(),
                s == self@,
                output@ == head + i32s_bytes(dep_ids(s).take(i as int)),
            decreases 10 - i,
        {
            let id = if i < n {
                deps_get(&self.0, i).raw_id()
            } else {
                0
            };
            put_i32_le(output, id);
            i = i + 1;
            assert(dep_ids(s).take(i as int).drop_last() =~= dep_ids(s).take(i - 1));
            assert(output@ =~= head + i32s_bytes(dep_ids(s).take(i as int)));
        }
        let ghost mid = output@;
        let mut j: usize = 0;
        assert(dep_ids(s).take(10) =~= dep_ids(s));
        assert(dep_types(s).take(0) =~= Seq::<i32>::empty());
        while j < 10
            invariant
                j <= 10,
                n == s.len(),
                s == self@,
                output@ == mid + i32s_bytes(dep_types(s).take(j as int)),
            decreases 10 - j,
        {
            let ty = if j < n {
                deps_get(&self.0, j).dependency_type().to_i32()
            } else {
                0
            };
            put_i32_le(output, ty);
            j = j + 1;
            assert(dep_types(s).take(j as int).drop_last() =~= dep_types(s).take(j - 1));
            assert(output@ =~= mid + i32s_bytes(dep_types(s).take(j as int)));
        }
        assert(dep_types(s).take(10) =~= dep_types(s));
        assert(output@ =~= old(output)@ + deps_bytes(s));
    }

    /// The number of dependencies.
    pub fn len(&self) -> (n: usize)
        ensures
            n == self@.len(),
            n <= 10,
    {
        deps_len(&self.0)
    }

    /// Whether there are no dependencies.
    pub fn is_empty(&self) -> (r: bool)
        ensures
            r == (self@.len() == 0),
    {
        deps_len(&self.0) == 0
    }

    /// The dependency at place `i`.
    pub fn get(&self, i: usize) -> (d: Option<TechTreeDependency>)
        ensures
            match d {
                Some(x) => i < self@.len() && x@ == self@[i as int],
                None => i >= self@.len(),
            },
    {
        if i < deps_len(&self.0) {
            Some(deps_get(&self.0, i))
        } else {
            None
        }
    }
}


/// Every dependency is read back from the kind and the ID it is stored with.
pub proof fn lemma_dep_of_stored(x: DepView)
    ensures
        dep_of(dep_type_code(x), dep_raw_id(x)) == Ok::<DepView, ReadError>(x),
{
}

/// Reading the first `n` of the dependencies stored from a list gives back its first `n`.
proof fn lemma_deps_from_written(s: Seq<DepView>, data: Seq<u8>, p: int, n: nat)
    requires
        n <= s.len(),
        s.len() <= 10,
        forall|i: int| 0 <= i < 10 ==> #[trigger] i32_slot(data, p + 4, i) == dep_ids(s)[i],
        forall|i: int| 0 <= i < 10 ==> #[trigger] i32_slot(data, p + 44, i) == dep_types(s)[i],
    ensures
        deps_from(data, p, n) == Ok::<Seq<DepView>, ReadError>(s.take(n as int)),
    decreases n,
{
    if n == 0 {
        assert(s.take(0) =~= Seq::<DepView>::empty());
    } else {
        let k = n - 1;
        lemma_deps_from_written(s, data, p, k as nat);
        assert(i32_slot(data, p + 4, k) == dep_raw_id(s[k]));
        assert(i32_slot(data, p + 44, k) == dep_type_code(s[k]));
        lemma_dep_of_stored(s[k]);
        assert(s.take(k).push(s[k]) =~= s.take(n as int));
    }
}

/// A block of at most ten dependencies that is written reads back unchanged, wherever it
/// stands.
pub proof fn law_dependencies_read_of_write(prefix: Seq<u8>, s: Seq<DepView>, suffix: Seq<u8>)
    requires
        s.len() <= 10,
    ensures
        deps_bytes(s).len() == 84,
        deps_step(prefix + deps_bytes(s) + suffix, prefix.len() as int) == Ok::<
            (Seq<DepView>, int),
            ReadError,
        >((s, prefix.len() + 84int)),
{
    reveal(deps_step);
    let d = prefix + deps_bytes(s) + suffix;
    let p = prefix.len() as int;
    lemma_i32s_len(dep_ids(s));
    lemma_i32s_len(dep_types(s));
    let b = deps_bytes(s);
    assert(d.subrange(p + 4, p + 44) =~= i32s_bytes(dep_ids(s)));
    assert(d.subrange(p + 44, p + 84) =~= i32s_bytes(dep_types(s)));
    lemma_i32s_read(dep_ids(s), d, p + 4);
    lemma_i32s_read(dep_types(s), d, p + 44);
    assert(d[p] == s.len() as u8);
    lemma_deps_from_written(s, d, p, s.len());
    assert(s.take(s.len() as int) =~= s);
}

} // verus!
