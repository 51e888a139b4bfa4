//! Unit base classes: which attribute blocks a unit type carries.
use std::cmp::Ordering;
use vstd::prelude::*;
use vstd::std_specs::cmp::PartialOrdSpecImpl;

verus! {

/// The base class of a unit indicates which data is available for that unit type.
///
/// A base class value is greater than another value if the base class "inherits" from
/// the other value. For example, the `Doppelganger` base class inherits from the
/// `Animated` base class. No other class inherits from `Doppelganger`.
#[derive(Debug, Clone, Copy, PartialEq, Eq, Structural)]
pub enum UnitBaseClass {
    /// The base unit type, for units that do not do anything. (Code 10.)
    Static,
    /// Unit type that supports animated sprites. (Code 20.)
    Animated,
    /// Unit type for the "fake" units you see in the fog of war, after the actual unit has
    /// been destroyed. (Code 25.)
    Doppelganger,
    /// Unit type that supports movement. (Code 30.)
    Moving,
    /// Unit type that supports being tasked by a player. (Code 40.)
    Action,
    /// Unit type that supports combat. (Code 50.)
    BaseCombat,
    /// Unit type for projectiles/missiles/arrows. (Code 60.)
    Missile,
    /// Unit type that supports combat (with additional Age of Empires specific data). (Code 70.)
    Combat,
    /// Unit type for buildings. (Code 80.)
    Building,
    /// The tree unit type. (Code 90.)
    Tree,
}

/// An unexpected unit base class was found; holds the code that was read.
#[derive(Debug, Clone, Copy, PartialEq, Eq, Structural)]
pub struct ParseUnitBaseClassError(pub u8);

/// The byte that identifies a base class in data files.
pub open spec fn class_code(c: UnitBaseClass) -> u8 {
    match c {
        UnitBaseClass::Static => 10,
        UnitBaseClass::Animated => 20,
        UnitBaseClass::Doppelganger => 25,
        UnitBaseClass::Moving => 30,
        UnitBaseClass::Action => 40,
        UnitBaseClass::BaseCombat => 50,
        UnitBaseClass::Missile => 60,
        UnitBaseClass::Combat => 70,
        UnitBaseClass::Building => 80,
        UnitBaseClass::Tree => 90,
    }
}

/// Doppelganger and Missile are leaves of the hierarchy.
pub open spec fn is_leaf_class(c: UnitBaseClass) -> bool {
    c == UnitBaseClass::Doppelganger || c == UnitBaseClass::Missile
}

/// Comparison of base classes: leaves (Doppelganger, Missile) are greater than any class
/// that is no leaf and has a smaller code, and otherwise unordered against (no class
/// inherits from a leaf); Tree only extends Static; other
/// classes are ordered by their codes.
pub open spec fn base_class_order(a: UnitBaseClass, b: UnitBaseClass) -> Option<Ordering> {
    if a == b {
        Some(Ordering::Equal)
    } else if is_leaf_class(a) {
        if !is_leaf_class(b) && class_code(a) > class_code(b) {
            Some(Ordering::Greater)
        } else {
            None
        }
    } else if a == UnitBaseClass::Tree {
        if b == UnitBaseClass::Static {
            Some(Ordering::Greater)
        } else {
            None
        }
    } else if is_leaf_class(b) {
        if class_code(a) < class_code(b) {
            Some(Ordering::Less)
        } else {
            None
        }
    } else if b == UnitBaseClass::Tree {
        if a == UnitBaseClass::Static {
            Some(Ordering::Less)
        } else {
            None
        }
    } else if class_code(a) < class_code(b) {
        Some(Ordering::Less)
    } else {
        Some(Ordering::Greater)
    }
}

impl UnitBaseClass {
    /// The byte that identifies this base class in data files.
    pub fn code(self) -> (r: u8)
        ensures
            r == class_code(self),
    {
        match self {
            UnitBaseClass::Static => 10,
            UnitBaseClass::Animated => 20,
            UnitBaseClass::Doppelganger => 25,
            UnitBaseClass::Moving => 30,
            UnitBaseClass::Action => 40,
            UnitBaseClass::BaseCombat => 50,
            UnitBaseClass::Missile => 60,
            UnitBaseClass::Combat => 70,
            UnitBaseClass::Building => 80,
            UnitBaseClass::Tree => 90,
        }
    }

    /// The base class with the code `n`.
    pub fn try_from(n: u8) -> (r: Result<UnitBaseClass, ParseUnitBaseClassError>)
        ensures
            r matches Ok(c) ==> class_code(c) == n,
            r matches Err(e) ==> e.0 == n && forall|c: UnitBaseClass| class_code(c) != n,
    {
        match n {
            10 => Ok(UnitBaseClass::Static),
            20 => Ok(UnitBaseClass::Animated),
            25 => Ok(UnitBaseClass::Doppelganger),
            30 => Ok(UnitBaseClass::Moving),
            40 => Ok(UnitBaseClass::Action),
            50 => Ok(UnitBaseClass::BaseCombat),
            60 => Ok(UnitBaseClass::Missile),
            70 => Ok(UnitBaseClass::Combat),
            80 => Ok(UnitBaseClass::Building),
            90 => Ok(UnitBaseClass::Tree),
            _ => {
                assert forall|c: UnitBaseClass| class_code(c) != n by {
                    match c {
                        UnitBaseClass::Static => {},
                        UnitBaseClass::Animated => {},
                        UnitBaseClass::Doppelganger => {},
                        UnitBaseClass::Moving => {},
                        UnitBaseClass::Action => {},
                        UnitBaseClass::BaseCombat => {},
                        UnitBaseClass::Missile => {},
                        UnitBaseClass::Combat => {},
                        UnitBaseClass::Building => {},
                        UnitBaseClass::Tree => {},
                    }
                }
                Err(ParseUnitBaseClassError(n))
            },
        }
    }

    fn is_leaf(self) -> (r: bool)
        ensures
            r == is_leaf_class(self),
    {
        match self {
            UnitBaseClass::Doppelganger | UnitBaseClass::Missile => true,
            _ => false,
        }
    }
}

impl PartialOrd for UnitBaseClass {
    fn partial_cmp(&self, other: &UnitBaseClass) -> (r: Option<Ordering>) {
        if *self == *other {
            return Some(Ordering::Equal);
        }
        let self_n = self.code();
        let other_n = other.code();
        // handle weird leaves specially
        if self.is_leaf() {
            if !other.is_leaf() && self_n > other_n {
                Some(Ordering::Greater)
            } else {
                None
            }
        } else if *self == UnitBaseClass::Tree {
            if *other == UnitBaseClass::Static {
                Some(Ordering::Greater)
            } else {
                None
            }
        } else if other.is_leaf() {
            if self_n < other_n {
                Some(Ordering::Less)
            } else {
                None
            }
        } else if *other == UnitBaseClass::Tree {
            if *self == UnitBaseClass::Static {
                Some(Ordering::Less)
            } else {
                None
            }
        } else if self_n < other_n {
            Some(Ordering::Less)
        } else {
            Some(Ordering::Greater)
        }
    }
}

impl PartialOrdSpecImpl for UnitBaseClass {
    open spec fn obeys_partial_cmp_spec() -> bool {
        true
    }

    open spec fn partial_cmp_spec(&self, other: &Self) -> Option<Ordering> {
        base_class_order(*self, *other)
    }
}

/// Whether a unit of class `a` carries the attributes of class `b`: `a >= b`.
pub open spec fn class_at_least(a: UnitBaseClass, b: UnitBaseClass) -> bool {
    match base_class_order(a, b) {
        Some(Ordering::Greater) => true,
        Some(Ordering::Equal) => true,
        _ => false,
    }
}

impl UnitBaseClass {
    /// `self >= other`: whether a unit of this class carries the attributes of `other`.
    pub fn at_least(self, other: UnitBaseClass) -> (r: bool)
        ensures
            r == class_at_least(self, other),
    {
        self >= other
    }
}

/// Codes and classes correspond one to one.
pub proof fn law_class_code_injective(a: UnitBaseClass, b: UnitBaseClass)
    ensures
        class_code(a) == class_code(b) <==> a == b,
{
}

/// A class compares equal only to itself.
pub proof fn law_base_class_equal(a: UnitBaseClass, b: UnitBaseClass)
    ensures
        base_class_order(a, b) == Some(Ordering::Equal) <==> a == b,
{
}

/// Comparing in the other direction gives the opposite answer.
pub proof fn law_base_class_antisymmetric(a: UnitBaseClass, b: UnitBaseClass)
    ensures
        base_class_order(a, b) == Some(Ordering::Less) <==> base_class_order(b, a) == Some(
            Ordering::Greater,
        ),
        base_class_order(a, b) is None <==> base_class_order(b, a) is None,
{
}

/// No class inherits from a leaf (Doppelganger or Missile).
pub proof fn law_leaves_have_no_heirs(a: UnitBaseClass, b: UnitBaseClass)
    requires
        is_leaf_class(b),
        a != b,
    ensures
        base_class_order(a, b) != Some(Ordering::Greater),
{
}

/// "Inherits from" is transitive.
pub proof fn law_base_class_transitive(a: UnitBaseClass, b: UnitBaseClass, c: UnitBaseClass)
    requires
        base_class_order(a, b) == Some(Ordering::Greater),
        base_class_order(b, c) == Some(Ordering::Greater),
    ensures
        base_class_order(a, c) == Some(Ordering::Greater),
{
}

/// Every class inherits from Static.
pub proof fn law_static_is_root(a: UnitBaseClass)
    requires
        a != UnitBaseClass::Static,
    ensures
        base_class_order(a, UnitBaseClass::Static) == Some(Ordering::Greater),
{
}

} // verus!
