//! Identifiers of the records of a data file.
use vstd::prelude::*;
use vstd::std_specs::convert::FromSpecImpl;

verus! {

/// An ID identifying a sound.
#[derive(Debug, Default, Clone, Copy, PartialEq, Eq, Hash)]
pub struct SoundID(u16);

impl View for SoundID {
    type V = u16;

    closed spec fn view(&self) -> u16 {
        self.0
    }
}

impl From<u16> for SoundID {
    fn from(n: u16) -> (r: Self)
        ensures
            r@ == n,
    {
        SoundID(n)
    }
}

impl FromSpecImpl<u16> for SoundID {
    /// The result is given by the `ensures` of `from`.
    open spec fn obeys_from_spec() -> bool {
        false
    }

    open spec fn from_spec(n: u16) -> Self {
        choose|r: SoundID| r@ == n
    }
}

impl From<SoundID> for u16 {
    fn from(n: SoundID) -> (r: Self)
        ensures
            r == n@,
    {
        n.0
    }
}

impl FromSpecImpl<SoundID> for u16 {
    open spec fn obeys_from_spec() -> bool {
        true
    }

    open spec fn from_spec(n: SoundID) -> Self {
        n@
    }
}

/// An ID identifying a terrain.
#[derive(Debug, Default, Clone, Copy, PartialEq, Eq, Hash)]
pub struct TerrainID(u16);

impl View for TerrainID {
    type V = u16;

    closed spec fn view(&self) -> u16 {
        self.0
    }
}

impl From<u16> for TerrainID {
    fn from(n: u16) -> (r: Self)
        ensures
            r@ == n,
    {
        TerrainID(n)
    }
}

impl FromSpecImpl<u16> for TerrainID {
    /// The result is given by the `ensures` of `from`.
    open spec fn obeys_from_spec() -> bool {
        false
    }

    open spec fn from_spec(n: u16) -> Self {
        choose|r: TerrainID| r@ == n
    }
}

impl From<TerrainID> for u16 {
    fn from(n: TerrainID) -> (r: Self)
        ensures
            r == n@,
    {
        n.0
    }
}

impl FromSpecImpl<TerrainID> for u16 {
    open spec fn obeys_from_spec() -> bool {
        true
    }

    open spec fn from_spec(n: TerrainID) -> Self {
        n@
    }
}

/// An ID identifying a civilization.
#[derive(Debug, Default, Clone, Copy, PartialEq, Eq, Hash)]
pub struct CivilizationID(u16);

impl View for CivilizationID {
    type V = u16;

    closed spec fn view(&self) -> u16 {
        self.0
    }
}

impl From<u16> for CivilizationID {
    fn from(n: u16) -> (r: Self)
        ensures
            r@ == n,
    {
        CivilizationID(n)
    }
}

impl FromSpecImpl<u16> for CivilizationID {
    /// The result is given by the `ensures` of `from`.
    open spec fn obeys_from_spec() -> bool {
        false
    }

    open spec fn from_spec(n: u16) -> Self {
        choose|r: CivilizationID| r@ == n
    }
}

impl CivilizationID {
    /// Every number is the view of exactly one civilization ID.
    pub proof fn lemma_view_bijective(n: u16)
        ensures
            exists|c: CivilizationID| c@ == n,
            forall|a: CivilizationID, b: CivilizationID| a@ == b@ ==> a == b,
    {
        let c = CivilizationID(n);
        assert(c@ == n);
    }
}

impl From<CivilizationID> for u16 {
    fn from(n: CivilizationID) -> (r: Self)
        ensures
            r == n@,
    {
        n.0
    }
}

impl FromSpecImpl<CivilizationID> for u16 {
    open spec fn obeys_from_spec() -> bool {
        true
    }

    open spec fn from_spec(n: CivilizationID) -> Self {
        n@
    }
}

/// An ID identifying a graphic.
#[derive(Debug, Default, Clone, Copy, PartialEq, Eq, Hash)]
pub struct GraphicID(u32);

impl View for GraphicID {
    type V = u32;

    closed spec fn view(&self) -> u32 {
        self.0
    }
}

impl From<u32> for GraphicID {
    fn from(n: u32) -> (r: Self)
        ensures
            r@ == n,
    {
        GraphicID(n)
    }
}

impl FromSpecImpl<u32> for GraphicID {
    /// The result is given by the `ensures` of `from`.
    open spec fn obeys_from_spec() -> bool {
        false
    }

    open spec fn from_spec(n: u32) -> Self {
        choose|r: GraphicID| r@ == n
    }
}

impl From<GraphicID> for u32 {
    fn from(n: GraphicID) -> (r: Self)
        ensures
            r == n@,
    {
        n.0
    }
}

impl FromSpecImpl<GraphicID> for u32 {
    open spec fn obeys_from_spec() -> bool {
        true
    }

    open spec fn from_spec(n: GraphicID) -> Self {
        n@
    }
}

/// An ID identifying a sprite.
#[derive(Debug, Default, Clone, Copy, PartialEq, Eq, Hash)]
pub struct SpriteID(u16);

impl View for SpriteID {
    type V = u16;

    closed spec fn view(&self) -> u16 {
        self.0
    }
}

impl From<u16> for SpriteID {
    fn from(n: u16) -> (r: Self)
        ensures
            r@ == n,
    {
        SpriteID(n)
    }
}

impl FromSpecImpl<u16> for SpriteID {
    /// The result is given by the `ensures` of `from`.
    open spec fn obeys_from_spec() -> bool {
        false
    }

    open spec fn from_spec(n: u16) -> Self {
        choose|r: SpriteID| r@ == n
    }
}

impl From<SpriteID> for u16 {
    fn from(n: SpriteID) -> (r: Self)
        ensures
            r == n@,
    {
        n.0
    }
}

impl FromSpecImpl<SpriteID> for u16 {
    open spec fn obeys_from_spec() -> bool {
        true
    }

    open spec fn from_spec(n: SpriteID) -> Self {
        n@
    }
}

/// An ID identifying a unit type.
#[derive(Debug, Default, Clone, Copy, PartialEq, Eq, Hash)]
pub struct UnitTypeID(u16);

impl View for UnitTypeID {
    type V = u16;

    closed spec fn view(&self) -> u16 {
        self.0
    }
}

impl From<u16> for UnitTypeID {
    fn from(n: u16) -> (r: Self)
        ensures
            r@ == n,
    {
        UnitTypeID(n)
    }
}

impl FromSpecImpl<u16> for UnitTypeID {
    /// The result is given by the `ensures` of `from`.
    open spec fn obeys_from_spec() -> bool {
        false
    }

    open spec fn from_spec(n: u16) -> Self {
        choose|r: UnitTypeID| r@ == n
    }
}

impl From<UnitTypeID> for u16 {
    fn from(n: UnitTypeID) -> (r: Self)
        ensures
            r == n@,
    {
        n.0
    }
}

impl FromSpecImpl<UnitTypeID> for u16 {
    open spec fn obeys_from_spec() -> bool {
        true
    }

    open spec fn from_spec(n: UnitTypeID) -> Self {
        n@
    }
}

/// An ID identifying a technology (a research).
#[derive(Debug, Default, Clone, Copy, PartialEq, Eq, Hash)]
pub struct TechID(u16);

impl View for TechID {
    type V = u16;

    closed spec fn view(&self) -> u16 {
        self.0
    }
}

impl From<u16> for TechID {
    fn from(n: u16) -> (r: Self)
        ensures
            r@ == n,
    {
        TechID(n)
    }
}

impl FromSpecImpl<u16> for TechID {
    /// The result is given by the `ensures` of `from`.
    open spec fn obeys_from_spec() -> bool {
        false
    }

    open spec fn from_spec(n: u16) -> Self {
        choose|r: TechID| r@ == n
    }
}

impl From<TechID> for u16 {
    fn from(n: TechID) -> (r: Self)
        ensures
            r == n@,
    {
        n.0
    }
}

impl FromSpecImpl<TechID> for u16 {
    open spec fn obeys_from_spec() -> bool {
        true
    }

    open spec fn from_spec(n: TechID) -> Self {
        n@
    }
}

} // verus!
