//! Identifiers of players and objects in recorded games.
use core::num::TryFromIntError;
use vstd::prelude::*;
use vstd::std_specs::convert::{FromSpecImpl, TryFromSpecImpl};

verus! {

/// ID identifying a player (0-8).
#[derive(Debug, Default, Clone, Copy, PartialEq, Eq, PartialOrd, Ord, Hash)]
pub struct PlayerID(u8);

impl View for PlayerID {
    type V = u8;

    closed spec fn view(&self) -> u8 {
        self.0
    }
}

impl PlayerID {
    /// Player ID for GAIA, the "nature" player.
    pub fn gaia() -> (p: PlayerID)
        ensures
            p@ == 0,
    {
        PlayerID(0)
    }

    /// The player ID with the number `n`.
    pub fn new(n: u8) -> (p: PlayerID)
        ensures
            p@ == n,
    {
        PlayerID(n)
    }

    /// The number of this player.
    pub fn get(&self) -> (n: u8)
        ensures
            n == self@,
    {
        self.0
    }
}

impl From<u8> for PlayerID {
    fn from(n: u8) -> (p: Self)
        ensures
            p@ == n,
    {
        PlayerID(n)
    }
}

impl FromSpecImpl<u8> for PlayerID {
    /// The result is given by the `ensures` of `from`.
    open spec fn obeys_from_spec() -> bool {
        false
    }

    open spec fn from_spec(n: u8) -> Self {
        choose|p: PlayerID| p@ == n
    }
}

impl From<PlayerID> for u8 {
    fn from(p: PlayerID) -> (n: Self)
        ensures
            n == p@,
    {
        p.0
    }
}

impl FromSpecImpl<PlayerID> for u8 {
    open spec fn obeys_from_spec() -> bool {
        true
    }

    open spec fn from_spec(p: PlayerID) -> Self {
        p@
    }
}

impl TryFrom<i32> for PlayerID {
    type Error = TryFromIntError;

    fn try_from(n: i32) -> (r: Result<Self, Self::Error>)
        ensures
            r is Ok <==> 0 <= n <= 255,
            r matches Ok(p) ==> p@ == n,
    {
        match u8::try_from(n) {
            Ok(b) => Ok(PlayerID(b)),
            Err(e) => Err(e),
        }
    }
}

impl TryFromSpecImpl<i32> for PlayerID {
    /// The result is given by the `ensures` of `try_from`.
    open spec fn obeys_try_from_spec() -> bool {
        false
    }

    open spec fn try_from_spec(n: i32) -> Result<Self, Self::Error> {
        if 0 <= n <= 255 {
            Ok(choose|p: PlayerID| p@ == n)
        } else {
            Err(arbitrary())
        }
    }
}

impl TryFrom<u32> for PlayerID {
    type Error = TryFromIntError;

    fn try_from(n: u32) -> (r: Result<Self, Self::Error>)
        ensures
            r is Ok <==> n <= 255,
            r matches Ok(p) ==> p@ == n,
    {
        match u8::try_from(n) {
            Ok(b) => Ok(PlayerID(b)),
            Err(e) => Err(e),
        }
    }
}

impl TryFromSpecImpl<u32> for PlayerID {
    /// The result is given by the `ensures` of `try_from`.
    open spec fn obeys_try_from_spec() -> bool {
        false
    }

    open spec fn try_from_spec(n: u32) -> Result<Self, Self::Error> {
        if n <= 255 {
            Ok(choose|p: PlayerID| p@ == n)
        } else {
            Err(arbitrary())
        }
    }
}

/// ID identifying an object in a game.
#[derive(Debug, Default, Clone, Copy, PartialEq, Eq, PartialOrd, Ord, Hash)]
pub struct ObjectID(u32);

impl View for ObjectID {
    type V = u32;

    closed spec fn view(&self) -> u32 {
        self.0
    }
}

impl ObjectID {
    /// The object ID with the number `n`.
    pub fn new(n: u32) -> (o: ObjectID)
        ensures
            o@ == n,
    {
        ObjectID(n)
    }

    /// The number of this object.
    pub fn get(&self) -> (n: u32)
        ensures
            n == self@,
    {
        self.0
    }
}

impl From<u32> for ObjectID {
    fn from(n: u32) -> (o: Self)
        ensures
            o@ == n,
    {
        ObjectID(n)
    }
}

impl FromSpecImpl<u32> for ObjectID {
    /// The result is given by the `ensures` of `from`.
    open spec fn obeys_from_spec() -> bool {
        false
    }

    open spec fn from_spec(n: u32) -> Self {
        choose|o: ObjectID| o@ == n
    }
}

impl From<u16> for ObjectID {
    fn from(n: u16) -> (o: Self)
        ensures
            o@ == n,
    {
        ObjectID(n as u32)
    }
}

impl FromSpecImpl<u16> for ObjectID {
    /// The result is given by the `ensures` of `from`.
    open spec fn obeys_from_spec() -> bool {
        false
    }

    open spec fn from_spec(n: u16) -> Self {
        choose|o: ObjectID| o@ == n
    }
}

impl From<ObjectID> for u32 {
    fn from(o: ObjectID) -> (n: Self)
        ensures
            n == o@,
    {
        o.0
    }
}

impl FromSpecImpl<ObjectID> for u32 {
    open spec fn obeys_from_spec() -> bool {
        true
    }

    open spec fn from_spec(o: ObjectID) -> Self {
        o@
    }
}

impl TryFrom<i32> for ObjectID {
    type Error = TryFromIntError;

    fn try_from(n: i32) -> (r: Result<Self, Self::Error>)
        ensures
            r is Ok <==> 0 <= n,
            r matches Ok(o) ==> o@ == n,
    {
        match u32::try_from(n) {
            Ok(v) => Ok(ObjectID(v)),
            Err(e) => Err(e),
        }
    }
}

impl TryFromSpecImpl<i32> for ObjectID {
    /// The result is given by the `ensures` of `try_from`.
    open spec fn obeys_try_from_spec() -> bool {
        false
    }

    open spec fn try_from_spec(n: i32) -> Result<Self, Self::Error> {
        if 0 <= n {
            Ok(choose|o: ObjectID| o@ == n)
        } else {
            Err(arbitrary())
        }
    }
}

impl TryFrom<ObjectID> for i32 {
    type Error = TryFromIntError;

    fn try_from(o: ObjectID) -> (r: Result<Self, Self::Error>)
        ensures
            r is Ok <==> o@ <= i32::MAX,
            r matches Ok(n) ==> n == o@,
    {
        i32::try_from(o.0 as u64)
    }
}

impl TryFromSpecImpl<ObjectID> for i32 {
    /// The result is given by the `ensures` of `try_from`.
    open spec fn obeys_try_from_spec() -> bool {
        false
    }

    open spec fn try_from_spec(o: ObjectID) -> Result<Self, Self::Error> {
        if o@ <= i32::MAX {
            Ok(o@ as i32)
        } else {
            Err(arbitrary())
        }
    }
}

} // verus!
