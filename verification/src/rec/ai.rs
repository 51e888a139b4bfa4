//! Player AI state stored in recorded games.
//!
//! Readers whose layout changed between game versions take the save version as the bit
//! pattern of its `f32` value, and compare it with `f32_bits_at_least`.
use crate::codec::{
    i32_at, opt_u16_at, opt_u32_at, put_u32_le, read_i32_le, read_i8, read_opt_u16, read_opt_u32,
    read_u16_le, read_u32_le, read_u8, signed_of, u16_at, u32_at, ReadError,
};
use crate::dat::ids::UnitTypeID;
use crate::rec::ids::PlayerID;
use crate::rec::actions::skip;
use crate::rec::ids::ObjectID;
use crate::rec::version::f32_bits_at_least;
use vstd::prelude::*;

verus! {

/// The `n` `u32` values stored from `p`.
pub open spec fn u32s_at(d: Seq<u8>, p: int, n: nat) -> Seq<u32> {
    Seq::new(n, |i: int| u32_at(d, p + 4 * i))
}

/// The object IDs of a list.
pub open spec fn object_ids(v: Seq<ObjectID>) -> Seq<u32> {
    v.map_values(|o: ObjectID| o@)
}

/// Read `n` `u32` values from `pos` as object IDs.
fn read_object_ids(input: &[u8], pos: usize, n: u32) -> (r: Result<(Vec<ObjectID>, usize), ReadError>)
    requires
        pos <= input.len(),
    ensures
        r is Ok <==> pos + 4 * n <= input.len(),
        r matches Ok((v, p)) ==> object_ids(v@) == u32s_at(input@, pos as int, n as nat) && p == pos
            + 4 * n,
        r matches Err(e) ==> e == ReadError::UnexpectedEof,
{
    let mut list: Vec<ObjectID> = Vec::new();
    let mut p = pos;
    let mut i: u32 = 0;
    assert(object_ids(list@) =~= u32s_at(input@, pos as int, 0));
    while i < n
        invariant
            i <= n,
            p == pos + 4 * i,
            i > 0 ==> p <= input.len(),
            object_ids(list@) == u32s_at(input@, pos as int, i as nat),
        decreases n - i,
    {
        let (x, q) = read_u32_le(input, p)?;
        let ghost before = list@;
        list.push(ObjectID::new(x));
        assert(object_ids(list@) =~= u32s_at(input@, pos as int, (i + 1) as nat)) by {
            assert(object_ids(list@) =~= object_ids(before).push(x));
        }
        p = q;
        i = i + 1;
    }
    Ok((list, p))
}

/// The main AI module.
#[derive(Debug, Default, Clone)]
pub struct MainAI {
    pub objects: Vec<ObjectID>,
}

/// Whether the main AI stored at `p` is all there: a count, then that many object IDs.
pub open spec fn main_ai_readable(d: Seq<u8>, p: int) -> bool {
    p + 4 <= d.len() && p + 4 + 4 * u32_at(d, p) <= d.len()
}

impl MainAI {
    /// Read the main AI module at `pos`: a count, then that many object IDs.
    pub fn read_from(input: &[u8], pos: usize) -> (r: Result<(Self, usize), ReadError>)
        ensures
            r is Ok <==> main_ai_readable(input@, pos as int),
            r matches Ok((ai, p)) ==> object_ids(ai.objects@) == u32s_at(
                input@,
                pos + 4,
                u32_at(input@, pos as int) as nat,
            ) && p == pos + 4 + 4 * u32_at(input@, pos as int),
            r matches Err(e) ==> e == ReadError::UnexpectedEof,
    {
        let (n, p) = read_u32_le(input, pos)?;
        let (objects, p) = read_object_ids(input, p, n)?;
        Ok((MainAI { objects }, p))
    }
}

/// The diplomacy AI module: how much the AI dislikes and likes each player.
#[derive(Debug, Default, Clone)]
pub struct DiplomacyAI {
    /// How much this AI dislikes each player, 0-100.
    pub dislike: [u32; 10],
    /// How much this AI likes each player, 0-100.
    pub like: [u32; 10],
    pub changeable: [u8; 10],
}

impl DiplomacyAI {
    /// Read the diplomacy AI module at `pos`: for each of ten players, a dislike, a like and
    /// a changeable flag, nine bytes each.
    pub fn read_from(input: &[u8], pos: usize) -> (r: Result<(Self, usize), ReadError>)
        ensures
            r is Ok <==> pos + 90 <= input.len(),
            r matches Ok((ai, p)) ==> p == pos + 90 && forall|i: int|
                0 <= i < 10 ==> ai.dislike@[i] == u32_at(input@, pos + 9 * i) && ai.like@[i]
                    == u32_at(input@, pos + 9 * i + 4) && ai.changeable@[i] == input@[pos + 9 * i
                    + 8],
            r matches Err(e) ==> e == ReadError::UnexpectedEof,
    {
        let mut dislike = [0u32; 10];
        let mut like = [0u32; 10];
        let mut changeable = [0u8; 10];
        let mut p = pos;
        let mut i: usize = 0;
        while i < 10
            invariant
                i <= 10,
                p == pos + 9 * i,
                i > 0 ==> p <= input.len(),
                dislike@.len() == 10 && like@.len() == 10 && changeable@.len() == 10,
                forall|k: int|
                    0 <= k < i ==> dislike@[k] == u32_at(input@, pos + 9 * k) && like@[k] == u32_at(
                        input@,
                        pos + 9 * k + 4,
                    ) && changeable@[k] == input@[pos + 9 * k + 8],
            decreases 10 - i,
        {
            let (a, q) = read_u32_le(input, p)?;
            let (b, q) = read_u32_le(input, q)?;
            let (c, q) = read_u8(input, q)?;
            dislike[i] = a;
            like[i] = b;
            changeable[i] = c;
            p = q;
            i = i + 1;
        }
        Ok((DiplomacyAI { dislike, like, changeable }, p))
    }
}

/// The emotional AI module.
#[derive(Debug, Default, Clone)]
pub struct EmotionalAI {
    pub state: [u32; 6],
}

impl EmotionalAI {
    /// Read the emotional AI module at `pos`: six `u32` values.
    pub fn read_from(input: &[u8], pos: usize) -> (r: Result<(Self, usize), ReadError>)
        ensures
            r is Ok <==> pos + 24 <= input.len(),
            r matches Ok((ai, p)) ==> p == pos + 24 && ai.state@ == u32s_at(input@, pos as int, 6),
            r matches Err(e) ==> e == ReadError::UnexpectedEof,
    {
        let mut state = [0u32; 6];
        let mut p = pos;
        let mut i: usize = 0;
        while i < 6
            invariant
                i <= 6,
                p == pos + 4 * i,
                i > 0 ==> p <= input.len(),
                state@.len() == 6,
                forall|k: int| 0 <= k < i ==> state@[k] == u32_at(input@, pos + 4 * k),
            decreases 6 - i,
        {
            let (a, q) = read_u32_le(input, p)?;
            state[i] = a;
            p = q;
            i = i + 1;
        }
        assert(state@ =~= u32s_at(input@, pos as int, 6));
        Ok((EmotionalAI { state }, p))
    }
}

/// An optional `i32` stored as a `u32` at `p`: `0xFFFF_FFFF` for none; a value that does
/// not fit in an `i32` is invalid data.
pub open spec fn opt_i32_step(d: Seq<u8>, p: int) -> Result<Option<i32>, ReadError> {
    match opt_u32_at(d, p) {
        None => Ok(None),
        Some(v) => if v <= i32::MAX {
            Ok(Some(v as i32))
        } else {
            Err(ReadError::InvalidData)
        },
    }
}

/// Read an optional `i32` stored as a `u32`.
fn read_opt_i32(input: &[u8], pos: usize) -> (r: Result<(Option<i32>, usize), ReadError>)
    ensures
        pos + 4 > input.len() ==> r == Err::<(Option<i32>, usize), ReadError>(
            ReadError::UnexpectedEof,
        ),
        pos + 4 <= input.len() ==> match opt_i32_step(input@, pos as int) {
            Ok(v) => r matches Ok((x, p)) && x == v && p == pos + 4,
            Err(e) => r == Err::<(Option<i32>, usize), ReadError>(e),
        },
{
    let (v, p) = read_opt_u32(input, pos)?;
    match v {
        None => Ok((None, p)),
        Some(n) => if n <= 0x7FFF_FFFF {
            Ok((Some(n as i32), p))
        } else {
            Err(ReadError::InvalidData)
        },
    }
}

/// An optional player stored as an `i8`: `-1` for none.
pub open spec fn opt_owner(b: u8) -> Option<u8> {
    if b == 0xFF {
        None
    } else {
        Some(b)
    }
}

/// Read an optional player stored as an `i8`; it must be `-1` or not negative.
fn read_owner(input: &[u8], pos: usize) -> (r: Result<(Option<u8>, usize), ReadError>)
    requires
        pos < input.len() ==> (input@[pos as int] == 0xFF || input@[pos as int] < 0x80),
    ensures
        r is Ok <==> pos + 1 <= input.len(),
        r matches Ok((o, p)) ==> o == opt_owner(input@[pos as int]) && p == pos + 1,
        r matches Err(e) ==> e == ReadError::UnexpectedEof,
{
    let (b, p) = read_u8(input, pos)?;
    if b == 0xFF {
        Ok((None, p))
    } else {
        Ok((Some(b), p))
    }
}

/// What an AI remembers of an important object. The three combat values are the bit
/// patterns of `f32` values.
#[derive(Debug, Default, Clone, Copy)]
pub struct ImportantObjectMemory {
    pub id: Option<ObjectID>,
    pub unit_type_id: Option<UnitTypeID>,
    pub unit_class: Option<u16>,
    pub location: (u8, u8, u8),
    pub owner: PlayerID,
    pub hit_points: u16,
    pub attack_attempts: u32,
    pub kills: u8,
    pub damage_capability: u32,
    pub rate_of_fire: u32,
    pub range: u32,
    pub time_seen: Option<u32>,
    pub is_garrisoned: u32,
}

/// The values of an important object memory, in the order in which they are stored.
pub ghost struct ImportantObjectView {
    pub id: Option<u32>,
    pub unit_type_id: Option<u16>,
    pub unit_class: Option<u16>,
    pub location: (u8, u8, u8),
    pub owner: u8,
    pub hit_points: u16,
    pub attack_attempts: u32,
    pub kills: u8,
    pub combat: (u32, u32, u32),
    pub time_seen: Option<u32>,
    pub is_garrisoned: u32,
}

impl View for ImportantObjectMemory {
    type V = ImportantObjectView;

    open spec fn view(&self) -> ImportantObjectView {
        ImportantObjectView {
            id: match self.id {
                Some(o) => Some(o@),
                None => None,
            },
            unit_type_id: match self.unit_type_id {
                Some(u) => Some(u@),
                None => None,
            },
            unit_class: self.unit_class,
            location: self.location,
            owner: self.owner@,
            hit_points: self.hit_points,
            attack_attempts: self.attack_attempts,
            kills: self.kills,
            combat: (self.damage_capability, self.rate_of_fire, self.range),
            time_seen: self.time_seen,
            is_garrisoned: self.is_garrisoned,
        }
    }
}

/// The important object memory stored at `p`, 39 bytes: its ID, unit type and class
/// (all-ones for none), location, owner, hit points, attack attempts, kills, the three
/// combat values, the time it was seen (all-ones for never) and whether it is garrisoned.
pub open spec fn important_object_at(d: Seq<u8>, p: int) -> Option<ImportantObjectView> {
    if p + 39 <= d.len() {
        Some(
            ImportantObjectView {
                id: opt_u32_at(d, p),
                unit_type_id: opt_u16_at(d, p + 4),
                unit_class: opt_u16_at(d, p + 6),
                location: (d[p + 8], d[p + 9], d[p + 10]),
                owner: d[p + 11],
                hit_points: u16_at(d, p + 12),
                attack_attempts: u32_at(d, p + 14),
                kills: d[p + 18],
                combat: (u32_at(d, p + 19), u32_at(d, p + 23), u32_at(d, p + 27)),
                time_seen: opt_u32_at(d, p + 31),
                is_garrisoned: u32_at(d, p + 35),
            },
        )
    } else {
        None
    }
}

impl ImportantObjectMemory {
    /// Read an important object memory at `pos`; the layout is the same in every version.
    pub fn read_from(input: &[u8], pos: usize, _version: u32) -> (r: Result<(Self, usize), ReadError>)
        ensures
            match important_object_at(input@, pos as int) {
                Some(v) => r matches Ok((m, p)) && m@ == v && p == pos + 39,
                None => r == Err::<(Self, usize), ReadError>(ReadError::UnexpectedEof),
            },
    {
        proof {
            crate::codec::lemma_pow256_values();
        }
        if pos > input.len() || input.len() - pos < 39 {
            return Err(ReadError::UnexpectedEof);
        }
        let (id, p) = read_opt_u32(input, pos)?;
        let (unit_type, p) = read_opt_u16(input, p)?;
        let (unit_class, p) = read_opt_u16(input, p)?;
        let (x, p) = read_u8(input, p)?;
        let (y, p) = read_u8(input, p)?;
        let (z, p) = read_u8(input, p)?;
        let (owner, p) = read_u8(input, p)?;
        let (hit_points, p) = read_u16_le(input, p)?;
        let (attack_attempts, p) = read_u32_le(input, p)?;
        let (kills, p) = read_u8(input, p)?;
        let (damage_capability, p) = read_u32_le(input, p)?;
        let (rate_of_fire, p) = read_u32_le(input, p)?;
        let (range, p) = read_u32_le(input, p)?;
        let (time_seen, p) = read_opt_u32(input, p)?;
        let (is_garrisoned, p) = read_u32_le(input, p)?;
        let m = ImportantObjectMemory {
            id: match id {
                Some(n) => Some(ObjectID::new(n)),
                None => None,
            },
            unit_type_id: match unit_type {
                Some(n) => Some(UnitTypeID::from(n)),
                None => None,
            },
            unit_class,
            location: (x, y, z),
            owner: PlayerID::new(owner),
            hit_points,
            attack_attempts,
            kills,
            damage_capability,
            rate_of_fire,
            range,
            time_seen,
            is_garrisoned,
        };
        Ok((m, p))
    }
}

/// What an AI remembers of an attack.
#[derive(Debug, Default, Clone)]
pub struct AttackMemory {
    pub id: Option<i32>,
    pub typ: u8,
    pub min_x: u8,
    pub min_y: u8,
    pub max_x: u8,
    pub max_y: u8,
    pub attacking_owner: Option<u8>,
    pub target_owner: Option<u8>,
    pub kills: u16,
    pub success: bool,
    pub timestamp: Option<u32>,
    pub play: Option<i32>,
}

/// The abstract value of an attack memory.
pub ghost struct AttackMemoryView {
    pub id: Option<i32>,
    pub typ: u8,
    pub area: (u8, u8, u8, u8),
    pub attacking_owner: Option<u8>,
    pub target_owner: Option<u8>,
    pub kills: u16,
    pub success: bool,
    pub timestamp: Option<u32>,
    pub play: Option<i32>,
}

impl View for AttackMemory {
    type V = AttackMemoryView;

    open spec fn view(&self) -> AttackMemoryView {
        AttackMemoryView {
            id: self.id,
            typ: self.typ,
            area: (self.min_x, self.min_y, self.max_x, self.max_y),
            attacking_owner: self.attacking_owner,
            target_owner: self.target_owner,
            kills: self.kills,
            success: self.success,
            timestamp: self.timestamp,
            play: self.play,
        }
    }
}

/// Whether the owners of the attack memory at `p` are players or `-1`; reading another
/// negative owner panics.
pub open spec fn attack_memory_readable(d: Seq<u8>, p: int) -> bool {
    &&& p + 9 < d.len() ==> (d[p + 9] == 0xFF || d[p + 9] < 0x80)
    &&& p + 10 < d.len() ==> (d[p + 10] == 0xFF || d[p + 10] < 0x80)
}

/// The attack memory stored at `p`, 24 bytes: its ID, type, area, owners, a byte of
/// padding, kills, success, a byte of padding, timestamp and play. An ID or play that does
/// not fit in an `i32` is invalid data.
pub open spec fn attack_memory_at(d: Seq<u8>, p: int) -> Result<AttackMemoryView, ReadError> {
    if p + 24 <= d.len() {
        match opt_i32_step(d, p) {
            Err(e) => Err(e),
            Ok(id) => match opt_i32_step(d, p + 20) {
                Err(e) => Err(e),
                Ok(play) => Ok(
                    AttackMemoryView {
                        id,
                        typ: d[p + 4],
                        area: (d[p + 5], d[p + 6], d[p + 7], d[p + 8]),
                        attacking_owner: opt_owner(d[p + 9]),
                        target_owner: opt_owner(d[p + 10]),
                        kills: u16_at(d, p + 12),
                        success: d[p + 14] != 0,
                        timestamp: opt_u32_at(d, p + 16),
                        play,
                    },
                ),
            },
        }
    } else if p + 4 <= d.len() && opt_i32_step(d, p) is Err {
        Err(ReadError::InvalidData)
    } else {
        Err(ReadError::UnexpectedEof)
    }
}


impl AttackMemory {
    /// Read an attack memory at `pos`; its owners must be players or `-1`.
    pub fn read_from(input: &[u8], pos: usize) -> (r: Result<(Self, usize), ReadError>)
        requires
            attack_memory_readable(input@, pos as int),
        ensures
            match attack_memory_at(input@, pos as int) {
                Ok(v) => r matches Ok((m, p)) && m@ == v && p == pos + 24,
                Err(e) => r matches Err(f) && f == e,
            },
    {
        let (id, p) = read_opt_i32(input, pos)?;
        let (typ, p) = read_u8(input, p)?;
        let (min_x, p) = read_u8(input, p)?;
        let (min_y, p) = read_u8(input, p)?;
        let (max_x, p) = read_u8(input, p)?;
        let (max_y, p) = read_u8(input, p)?;
        let (attacking_owner, p) = read_owner(input, p)?;
        let (target_owner, p) = read_owner(input, p)?;
        let p = skip(input, p, 1)?;
        let (kills, p) = read_u16_le(input, p)?;
        let (success, p) = read_u8(input, p)?;
        let p = skip(input, p, 1)?;
        let (timestamp, p) = read_opt_u32(input, p)?;
        let (play, p) = read_opt_i32(input, p)?;
        Ok(
            (
                AttackMemory {
                    id,
                    typ,
                    min_x,
                    min_y,
                    max_x,
                    max_y,
                    attacking_owner,
                    target_owner,
                    kills,
                    success: success != 0,
                    timestamp,
                    play,
                },
                p,
            ),
        )
    }
}

/// What an AI remembers of a resource.
#[derive(Debug, Default)]
pub struct ResourceMemory {
    pub id: ObjectID,
    pub location: (u8, u8),
    pub gather_attempts: u8,
    pub gather: u32,
    pub valid: bool,
    pub gone: bool,
    pub drop_distance: u8,
    pub resource_type: u8,
    pub dropsite_id: ObjectID,
    pub attacked_time: Option<u32>,
}

/// Save version 10.91, as the bit pattern of an `f32`.
pub const VERSION_10_91: u32 = 0x412e_8f5c;

/// The size of a resource memory stored by a game of save version `version` (the bit
/// pattern of an `f32`): the time it was attacked is stored from version 10.91 on.
pub open spec fn resource_memory_size(version: u32) -> int {
    if f32_bits_at_least(version, VERSION_10_91) {
        23
    } else {
        19
    }
}

impl ResourceMemory {
    /// Read a resource memory at `pos`, stored by a game of save version `version` (the bit
    /// pattern of an `f32`).
    pub fn read_from(input: &[u8], pos: usize, version: u32) -> (r: Result<(Self, usize), ReadError>)
        ensures
            r is Ok <==> pos + resource_memory_size(version) <= input.len(),
            r matches Ok((m, p)) ==> {
                let d = input@;
                &&& m.id@ == u32_at(d, pos as int)
                &&& m.location == (d[pos + 4], d[pos + 5])
                &&& m.gather_attempts == d[pos + 6]
                &&& m.gather == u32_at(d, pos + 7)
                &&& m.valid == (d[pos + 11] != 0)
                &&& m.gone == (d[pos + 12] != 0)
                &&& m.drop_distance == d[pos + 13]
                &&& m.resource_type == d[pos + 14]
                &&& m.dropsite_id@ == u32_at(d, pos + 15)
                &&& m.attacked_time == (if f32_bits_at_least(version, VERSION_10_91) {
                    opt_u32_at(d, pos + 19)
                } else {
                    None
                })
                &&& p == pos + resource_memory_size(version)
            },
            r matches Err(e) ==> e == ReadError::UnexpectedEof,
    {
        let (id, p) = read_u32_le(input, pos)?;
        let (x, p) = read_u8(input, p)?;
        let (y, p) = read_u8(input, p)?;
        let (gather_attempts, p) = read_u8(input, p)?;
        let (gather, p) = read_u32_le(input, p)?;
        let (valid, p) = read_u8(input, p)?;
        let (gone, p) = read_u8(input, p)?;
        let (drop_distance, p) = read_u8(input, p)?;
        let (resource_type, p) = read_u8(input, p)?;
        let (dropsite_id, p) = read_u32_le(input, p)?;
        let (attacked_time, p) = if VERSION_10_91 <= version && version <= 0x7f80_0000 {
            read_opt_u32(input, p)?
        } else {
            (None, p)
        };
        Ok(
            (
                ResourceMemory {
                    id: ObjectID::new(id),
                    location: (x, y),
                    gather_attempts,
                    gather,
                    valid: valid != 0,
                    gone: gone != 0,
                    drop_distance,
                    resource_type,
                    dropsite_id: ObjectID::new(dropsite_id),
                    attacked_time,
                },
                p,
            ),
        )
    }
}

/// An influence map of an AI.
#[derive(Debug, Default)]
pub struct InfluenceMap {
    pub width: u32,
    pub height: u32,
    pub reference_point: (u32, u32),
    pub unchangeable_limit: u8,
    pub values: Vec<i8>,
}

/// The number of values of the influence map stored at `p`: its width times its height.
pub open spec fn influence_map_cells(d: Seq<u8>, p: int) -> int {
    u32_at(d, p) * u32_at(d, p + 4)
}

/// Whether the size of the influence map at `p` fits in a `u32`; computing a larger one
/// panics.
pub open spec fn influence_map_readable(d: Seq<u8>, p: int) -> bool {
    p + 8 <= d.len() ==> influence_map_cells(d, p) <= u32::MAX
}

impl InfluenceMap {
    /// Read an influence map at `pos`: width, height, reference point, limit, then a value
    /// for each cell.
    pub fn read_from(input: &[u8], pos: usize) -> (r: Result<(Self, usize), ReadError>)
        requires
            influence_map_readable(input@, pos as int),
        ensures
            r is Ok <==> pos + 17 <= input.len() && pos + 17 + influence_map_cells(
                input@,
                pos as int,
            ) <= input.len(),
            r matches Ok((m, p)) ==> {
                let d = input@;
                let n = influence_map_cells(d, pos as int);
                &&& m.width == u32_at(d, pos as int)
                &&& m.height == u32_at(d, pos + 4)
                &&& m.reference_point == (u32_at(d, pos + 8), u32_at(d, pos + 12))
                &&& m.unchangeable_limit == d[pos + 16]
                &&& m.values@ == Seq::new(n as nat, |i: int| signed_of(d[pos + 17 + i] as nat, 1) as i8)
                &&& p == pos + 17 + n
            },
            r matches Err(e) ==> e == ReadError::UnexpectedEof,
    {
        let (width, p) = read_u32_le(input, pos)?;
        let (height, p) = read_u32_le(input, p)?;
        let (rx, p) = read_u32_le(input, p)?;
        let (ry, p) = read_u32_le(input, p)?;
        let (unchangeable_limit, p) = read_u8(input, p)?;
        assert(width as int == u32_at(input@, pos as int) && height as int == u32_at(input@, pos + 4));
        let n = width * height;
        let mut values: Vec<i8> = Vec::new();
        let mut q = p;
        let mut i: u32 = 0;
        while i < n
            invariant
                i <= n,
                n as int == influence_map_cells(input@, pos as int),
                q == p + i,
                p == pos + 17,
                p <= input.len(),
                i > 0 ==> q <= input.len(),
                values@ == Seq::new(i as nat, |k: int| signed_of(input@[p + k] as nat, 1) as i8),
            decreases n - i,
        {
            let (v, q2) = read_i8(input, q)?;
            values.push(v);
            assert(values@ =~= Seq::new((i + 1) as nat, |k: int| signed_of(input@[p + k] as nat, 1) as i8));
            q = q2;
            i = i + 1;
        }
        Ok((InfluenceMap { width, height, reference_point: (rx, ry), unchangeable_limit, values }, q))
    }
}

impl Clone for ResourceMemory {
    fn clone(&self) -> (c: Self)
        ensures
            c == *self,
    {
        ResourceMemory {
            id: self.id,
            location: (self.location.0, self.location.1),
            gather_attempts: self.gather_attempts,
            gather: self.gather,
            valid: self.valid,
            gone: self.gone,
            drop_distance: self.drop_distance,
            resource_type: self.resource_type,
            dropsite_id: self.dropsite_id,
            attacked_time: self.attacked_time,
        }
    }
}

impl Clone for InfluenceMap {
    fn clone(&self) -> (c: Self)
        ensures
            c.width == self.width,
            c.height == self.height,
            c.reference_point == self.reference_point,
            c.unchangeable_limit == self.unchangeable_limit,
            c.values@ == self.values@,
    {
        InfluenceMap {
            width: self.width,
            height: self.height,
            reference_point: (self.reference_point.0, self.reference_point.1),
            unchangeable_limit: self.unchangeable_limit,
            values: self.values.clone(),
        }
    }
}

/// What an AI logs of a quadrant of the map.
#[derive(Debug, Default, Clone, Copy)]
pub struct QuadrantLog {
    pub explored_tiles: u32,
    pub attacks_on_us: u32,
    pub attacks_by_us: u32,
}

impl QuadrantLog {
    /// Read a quadrant log at `pos`: three `u32` counts.
    pub fn read_from(input: &[u8], pos: usize) -> (r: Result<(Self, usize), ReadError>)
        ensures
            r is Ok <==> pos + 12 <= input.len(),
            r matches Ok((l, p)) ==> l.explored_tiles == u32_at(input@, pos as int)
                && l.attacks_on_us == u32_at(input@, pos + 4) && l.attacks_by_us == u32_at(
                input@,
                pos + 8,
            ) && p == pos + 12,
            r matches Err(e) ==> e == ReadError::UnexpectedEof,
    {
        let (explored_tiles, p) = read_u32_le(input, pos)?;
        let (attacks_on_us, p) = read_u32_le(input, p)?;
        let (attacks_by_us, p) = read_u32_le(input, p)?;
        Ok((QuadrantLog { explored_tiles, attacks_on_us, attacks_by_us }, p))
    }
}

/// The resource AI module.
#[derive(Debug, Default, Clone)]
pub struct ResourceAI {
    pub num_resources: u32,
}

impl ResourceAI {
    /// Read the resource AI module at `pos`: the number of resources.
    pub fn read_from(input: &[u8], pos: usize) -> (r: Result<(Self, usize), ReadError>)
        ensures
            r is Ok <==> pos + 4 <= input.len(),
            r matches Ok((ai, p)) ==> ai.num_resources == u32_at(input@, pos as int) && p == pos + 4,
            r matches Err(e) ==> e == ReadError::UnexpectedEof,
    {
        let (num_resources, p) = read_u32_le(input, pos)?;
        Ok((ResourceAI { num_resources }, p))
    }

    /// Append the resource AI module to `output`.
    pub fn write_to(&self, output: &mut Vec<u8>)
        ensures
            final(output)@ == old(output)@ + crate::codec::u32_bytes(self.num_resources),
    {
        put_u32_le(output, self.num_resources);
    }
}

/// Save version 10.78, as the bit pattern of an `f32`.
pub const VERSION_10_78: u32 = 0x412c_7ae1;

/// Save version 11.20, as the bit pattern of an `f32`.
pub const VERSION_11_20: u32 = 0x4133_3333;

/// Save version 11.22, as the bit pattern of an `f32`.
pub const VERSION_11_22: u32 = 0x4133_851f;

/// Save version 11.29, as the bit pattern of an `f32`.
pub const VERSION_11_29: u32 = 0x4134_a3d7;

/// Save version 11.34, as the bit pattern of an `f32`.
pub const VERSION_11_34: u32 = 0x4135_70a4;

/// Whether the save version `version` (an `f32` bit pattern) is at least `c`.
fn version_at_least(version: u32, c: u32) -> (r: bool)
    ensures
        r == f32_bits_at_least(version, c),
{
    c <= version && version <= 0x7f80_0000
}

/// Read a `u32` field if `present`, else give zero.
fn read_u32_if(input: &[u8], pos: usize, present: bool) -> (r: Result<(u32, usize), ReadError>)
    ensures
        r is Ok <==> (!present || pos + 4 <= input.len()),
        r matches Ok((v, p)) ==> (if present {
            v == u32_at(input@, pos as int) && p == pos + 4
        } else {
            v == 0 && p == pos
        }),
        r matches Err(e) ==> e == ReadError::UnexpectedEof,
{
    if present {
        read_u32_le(input, pos)
    } else {
        Ok((0, pos))
    }
}

/// The size of an optional field: four bytes when it is present.
pub open spec fn opt_size(present: bool) -> int {
    if present {
        4
    } else {
        0
    }
}

/// A `u32` field at `p` if it is present, else zero.
pub open spec fn u32_if(d: Seq<u8>, p: int, present: bool) -> u32 {
    if present {
        u32_at(d, p)
    } else {
        0
    }
}

/// A line of a wall that an AI builds.
#[derive(Debug, Default, Clone, Copy)]
pub struct WallLine {
    pub line_type: u32,
    pub wall_type: Option<u32>,
    pub gate_count: u32,
    pub segment_count: u32,
    pub invisible_segment_count: u32,
    pub unfinished_segment_count: u32,
    pub line_start: (u32, u32),
    pub line_end: (u32, u32),
}

/// The abstract value of a wall line.
pub ghost struct WallLineView {
    pub line_type: u32,
    pub wall_type: Option<u32>,
    pub gate_count: u32,
    pub segment_count: u32,
    pub invisible_segment_count: u32,
    pub unfinished_segment_count: u32,
    pub line_start: (u32, u32),
    pub line_end: (u32, u32),
}

impl View for WallLine {
    type V = WallLineView;

    open spec fn view(&self) -> WallLineView {
        WallLineView {
            line_type: self.line_type,
            wall_type: self.wall_type,
            gate_count: self.gate_count,
            segment_count: self.segment_count,
            invisible_segment_count: self.invisible_segment_count,
            unfinished_segment_count: self.unfinished_segment_count,
            line_start: self.line_start,
            line_end: self.line_end,
        }
    }
}

/// The wall line stored at `p` by a game of save version `v`, and the position after it.
/// The line type and gate count are stored from version 10.78 on, the count of invisible
/// segments from 11.34 on and that of unfinished segments from 11.29 on.
pub open spec fn wall_line_at(d: Seq<u8>, p: int, v: u32) -> Option<(WallLineView, int)> {
    let a = f32_bits_at_least(v, VERSION_10_78);
    let b = f32_bits_at_least(v, VERSION_11_34);
    let c = f32_bits_at_least(v, VERSION_11_29);
    let o1 = p + opt_size(a);
    let o2 = o1 + 4;
    let o3 = o2 + opt_size(a);
    let o4 = o3 + 4;
    let o5 = o4 + opt_size(b);
    let o6 = o5 + opt_size(c);
    if o6 + 16 <= d.len() {
        Some(
            (
                WallLineView {
                    line_type: u32_if(d, p, a),
                    wall_type: opt_u32_at(d, o1),
                    gate_count: u32_if(d, o2, a),
                    segment_count: u32_at(d, o3),
                    invisible_segment_count: u32_if(d, o4, b),
                    unfinished_segment_count: u32_if(d, o5, c),
                    line_start: (u32_at(d, o6), u32_at(d, o6 + 4)),
                    line_end: (u32_at(d, o6 + 8), u32_at(d, o6 + 12)),
                },
                o6 + 16,
            ),
        )
    } else {
        None
    }
}

impl WallLine {
    /// Read a wall line at `pos`, stored by a game of save version `version` (the bit
    /// pattern of an `f32`).
    pub fn read_from(input: &[u8], pos: usize, version: u32) -> (r: Result<(Self, usize), ReadError>)
        ensures
            match wall_line_at(input@, pos as int, version) {
                Some((v, q)) => r matches Ok((l, p)) && l@ == v && p == q,
                None => r == Err::<(Self, usize), ReadError>(ReadError::UnexpectedEof),
            },
    {
        let a = version_at_least(version, VERSION_10_78);
        let b = version_at_least(version, VERSION_11_34);
        let c = version_at_least(version, VERSION_11_29);
        let (line_type, p) = read_u32_if(input, pos, a)?;
        let (wall_type, p) = read_opt_u32(input, p)?;
        let (gate_count, p) = read_u32_if(input, p, a)?;
        let (segment_count, p) = read_u32_le(input, p)?;
        let (invisible_segment_count, p) = read_u32_if(input, p, b)?;
        let (unfinished_segment_count, p) = read_u32_if(input, p, c)?;
        let (sx, p) = read_u32_le(input, p)?;
        let (sy, p) = read_u32_le(input, p)?;
        let (ex, p) = read_u32_le(input, p)?;
        let (ey, p) = read_u32_le(input, p)?;
        Ok(
            (
                WallLine {
                    line_type,
                    wall_type,
                    gate_count,
                    segment_count,
                    invisible_segment_count,
                    unfinished_segment_count,
                    line_start: (sx, sy),
                    line_end: (ex, ey),
                },
                p,
            ),
        )
    }
}

/// The first `n` wall lines stored one after the other from `p` by a game of save version
/// `v`, and the position after them.
pub open spec fn wall_lines_from(d: Seq<u8>, p: int, v: u32, n: nat) -> Option<(Seq<WallLineView>, int)>
    decreases n,
{
    if n == 0 {
        Some((Seq::empty(), p))
    } else {
        match wall_lines_from(d, p, v, (n - 1) as nat) {
            Some((s, q)) => match wall_line_at(d, q, v) {
                Some((l, q2)) => Some((s.push(l), q2)),
                None => None,
            },
            None => None,
        }
    }
}

proof fn lemma_wall_lines_none(d: Seq<u8>, p: int, v: u32, k: nat, m: nat)
    requires
        k <= m,
        wall_lines_from(d, p, v, k) is None,
    ensures
        wall_lines_from(d, p, v, m) is None,
    decreases m - k,
{
    if k < m {
        lemma_wall_lines_none(d, p, v, k, (m - 1) as nat);
    }
}

/// The views of a list of wall lines.
pub open spec fn wall_line_views(v: Seq<WallLine>) -> Seq<WallLineView> {
    v.map_values(|l: WallLine| l@)
}

/// The perimeter wall that an AI builds.
#[derive(Debug, Default, Clone)]
pub struct PerimeterWall {
    pub enabled: bool,
    pub lines: Vec<WallLine>,
    pub gate_count: u32,
    pub gate_fitting_line_count: u32,
    pub percentage_complete: u32,
    pub segment_count: u32,
    pub invisible_segment_count: u32,
    pub unfinished_segment_count: u32,
    pub next_line_to_refresh: u32,
    pub next_segment_to_refresh: u32,
}

/// The fields of the perimeter wall stored at `p` by a game of save version `v`, before its
/// lines, and the position of the lines. In order: whether it is enabled (stored by 11.22
/// and later, else it is); its number of lines; for 11.20 and later, the number of gates,
/// how much of it stands, and the numbers of segments, invisible segments (11.34 and later)
/// and unfinished segments; for 11.29 and later, the next line and segment to refresh.
pub open spec fn perimeter_head_at(d: Seq<u8>, p: int, v: u32) -> Option<((bool, u32, Seq<u32>), int)> {
    let e = f32_bits_at_least(v, VERSION_11_22);
    let g = f32_bits_at_least(v, VERSION_11_20);
    let b = f32_bits_at_least(v, VERSION_11_34);
    let c = f32_bits_at_least(v, VERSION_11_29);
    let o1 = p + opt_size(e);
    let o2 = o1 + 4;
    let o3 = o2 + opt_size(g) * 3;
    let o4 = o3 + opt_size(g && b);
    let o5 = o4 + opt_size(g);
    let o6 = o5 + opt_size(c) * 2;
    if o6 <= d.len() {
        Some(
            (
                (
                    if e {
                        u32_at(d, p) != 0
                    } else {
                        true
                    },
                    u32_at(d, o1),
                    seq![
                        u32_if(d, o2, g),
                        u32_if(d, o2 + 4, g),
                        u32_if(d, o2 + 8, g),
                        u32_if(d, o3, g && b),
                        u32_if(d, o4, g),
                        u32_if(d, o5, c),
                        u32_if(d, o5 + 4, c),
                    ],
                ),
                o6,
            ),
        )
    } else {
        None
    }
}

impl PerimeterWall {
    /// Read a perimeter wall at `pos`, stored by a game of save version `version` (the bit
    /// pattern of an `f32`): its fields, then its lines.
    pub fn read_from(input: &[u8], pos: usize, version: u32) -> (r: Result<(Self, usize), ReadError>)
        ensures
            match perimeter_head_at(input@, pos as int, version) {
                Some(((enabled, n, counts), q)) => match wall_lines_from(
                    input@,
                    q,
                    version,
                    n as nat,
                ) {
                    Some((lines, end)) => r matches Ok((w, p)) && w.enabled == enabled
                        && wall_line_views(w.lines@) == lines && seq![
                        w.gate_count,
                        w.percentage_complete,
                        w.segment_count,
                        w.invisible_segment_count,
                        w.unfinished_segment_count,
                        w.next_line_to_refresh,
                        w.next_segment_to_refresh,
                    ] == counts && w.gate_fitting_line_count == 0 && p == end,
                    None => r == Err::<(Self, usize), ReadError>(ReadError::UnexpectedEof),
                },
                None => r == Err::<(Self, usize), ReadError>(ReadError::UnexpectedEof),
            },
    {
        let e = version_at_least(version, VERSION_11_22);
        let g = version_at_least(version, VERSION_11_20);
        let b = version_at_least(version, VERSION_11_34);
        let c = version_at_least(version, VERSION_11_29);
        let (enabled_flag, p) = read_u32_if(input, pos, e)?;
        let enabled = if e {
            enabled_flag != 0
        } else {
            true
        };
        let (num_lines, p) = read_u32_le(input, p)?;
        let (gate_count, p) = read_u32_if(input, p, g)?;
        let (percentage_complete, p) = read_u32_if(input, p, g)?;
        let (segment_count, p) = read_u32_if(input, p, g)?;
        let (invisible_segment_count, p) = read_u32_if(input, p, g && b)?;
        let (unfinished_segment_count, p) = read_u32_if(input, p, g)?;
        let (next_line_to_refresh, p) = read_u32_if(input, p, c)?;
        let (next_segment_to_refresh, p) = read_u32_if(input, p, c)?;
        let ghost q0 = p as int;
        assert(perimeter_head_at(input@, pos as int, version) matches Some((h, q)) && q == q0 && h.1
            == num_lines);
        let mut lines: Vec<WallLine> = Vec::new();
        let mut p = p;
        let mut i: u32 = 0;
        assert(wall_line_views(lines@) =~= Seq::<WallLineView>::empty());
        while i < num_lines
            invariant
                i <= num_lines,
                perimeter_head_at(input@, pos as int, version) matches Some((h, q)) && q == q0
                    && h.1 == num_lines,
                wall_lines_from(input@, q0, version, i as nat) == Some::<(Seq<WallLineView>, int)>(
                    (wall_line_views(lines@), p as int),
                ),
            decreases num_lines - i,
        {
            let (line, q) = match WallLine::read_from(input, p, version) {
                Ok(x) => x,
                Err(e) => {
                    proof {
                        lemma_wall_lines_none(input@, q0, version, (i + 1) as nat, num_lines as nat);
                    }
                    return Err(e);
                },
            };
            let ghost before = lines@;
            lines.push(line);
            assert(wall_line_views(lines@) =~= wall_line_views(before).push(line@));
            p = q;
            i = i + 1;
        }
        let wall = PerimeterWall {
            enabled,
            lines,
            gate_count,
            gate_fitting_line_count: 0,
            percentage_complete,
            segment_count,
            invisible_segment_count,
            unfinished_segment_count,
            next_line_to_refresh,
            next_segment_to_refresh,
        };
        Ok((wall, p))
    }
}

} // verus!
