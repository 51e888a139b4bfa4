//! Commands that produce things in buildings: making units, researching and queueing, and
//! UserPatch's AI commands.
use crate::codec::{
    lemma_field_lens, lemma_pow256_values, lemma_u16_field, lemma_u32_field, le_at, put_u16_le,
    put_u32_le, read_u16_le, read_u32_le, read_u8, signed_of, u16_at, u16_bytes, u32_at,
    u32_bytes, ReadError,
};
use crate::dat::ids::{TechID, UnitTypeID};
use crate::rec::actions::{
    lemma_target_read_of_write, read_target, skip, target_bytes, target_of, target_readable,
    target_view, target_writable, write_target,
};
use crate::rec::ids::{ObjectID, PlayerID};
use arrayvec::ArrayVec;
use vstd::prelude::*;

verus! {

/// The fields of a Make or Research command at `p`: its player, building, the unit type or
/// tech, and its target.
pub open spec fn production_at(d: Seq<u8>, p: int) -> Option<(u8, u32, u16, Option<u32>)> {
    if p + 15 <= d.len() {
        Some(
            (
                d[p + 7],
                u32_at(d, p + 3),
                u16_at(d, p + 9),
                target_of(signed_of(le_at(d, p + 11, 4), 4)),
            ),
        )
    } else {
        None
    }
}

/// The target field of the Make or Research command at `p` holds `-1` or an object's
/// number; reading any other negative number panics.
pub open spec fn production_readable(d: Seq<u8>, p: int) -> bool {
    p + 15 <= d.len() ==> target_readable(d, p + 11)
}

/// The fifteen bytes of a Make or Research command: three bytes of padding, the building,
/// the player, a byte of padding, the unit type or tech, and the target.
pub open spec fn production_bytes(player: u8, building: u32, id: u16, target: Option<u32>) -> Seq<u8> {
    seq![0u8, 0u8, 0u8] + u32_bytes(building) + seq![player, 0u8] + u16_bytes(id) + target_bytes(
        target,
    )
}

/// Reads the fields of a Make or Research command.
fn read_production(input: &[u8], pos: usize) -> (r: Result<(PlayerID, ObjectID, u16, Option<ObjectID>, usize), ReadError>)
    requires
        production_readable(input@, pos as int),
    ensures
        match production_at(input@, pos as int) {
            Some((player, building, id, target)) => r matches Ok((pl, b, i, t, p)) && pl@ == player
                && b@ == building && i == id && target_view(t) == target && p == pos + 15,
            None => r == Err::<(PlayerID, ObjectID, u16, Option<ObjectID>, usize), ReadError>(
                ReadError::UnexpectedEof,
            ),
        },
{
    let p = skip(input, pos, 3)?;
    let (building, p) = read_u32_le(input, p)?;
    let (player, p) = read_u8(input, p)?;
    let (_padding, p) = read_u8(input, p)?;
    let (id, p) = read_u16_le(input, p)?;
    let (target, p) = read_target(input, p)?;
    Ok((PlayerID::new(player), ObjectID::new(building), id, target, p))
}

/// Writes the fields of a Make or Research command.
fn write_production(out: &mut Vec<u8>, player: PlayerID, building: ObjectID, id: u16, target: Option<ObjectID>)
    requires
        target_writable(target),
    ensures
        final(out)@ == old(out)@ + production_bytes(player@, building@, id, target_view(target)),
{
    out.push(0u8);
    out.push(0u8);
    out.push(0u8);
    put_u32_le(out, building.get());
    out.push(player.get());
    out.push(0u8);
    put_u16_le(out, id);
    write_target(out, target);
    assert(final(out)@ =~= old(out)@ + production_bytes(
        player@,
        building@,
        id,
        target_view(target),
    ));
}

/// A Make or Research command that was written reads back with the same fields, if its
/// target is a number that fits in an `i32`.
pub proof fn law_production_read_of_write(
    pre: Seq<u8>,
    player: u8,
    building: u32,
    id: u16,
    target: Option<u32>,
    post: Seq<u8>,
)
    requires
        target matches Some(t) ==> t <= i32::MAX,
    ensures
        production_bytes(player, building, id, target).len() == 15,
        production_readable(pre + production_bytes(player, building, id, target) + post, pre.len() as int),
        production_at(pre + production_bytes(player, building, id, target) + post, pre.len() as int)
            == Some((player, building, id, target)),
{
    lemma_field_lens();
    let tail = post;
    lemma_target_read_of_write(pre + production_bytes(player, building, id, target).take(11), target, tail);
    let d = pre + production_bytes(player, building, id, target) + post;
    let p = pre.len() as int;
    assert(production_bytes(player, building, id, target).take(11) + target_bytes(target)
        =~= production_bytes(player, building, id, target));
    assert(d =~= (pre + production_bytes(player, building, id, target).take(11)) + target_bytes(
        target,
    ) + tail);
    assert(d.subrange(p + 3, p + 7) =~= u32_bytes(building));
    lemma_u32_field(d, p + 3, building);
    assert(d.subrange(p + 9, p + 11) =~= u16_bytes(id));
    lemma_u16_field(d, p + 9, id);
    assert(d[p + 7] == player);
}

/// Make (train) a unit in a building.
#[derive(Debug, Default, Clone)]
pub struct MakeCommand {
    pub player_id: PlayerID,
    pub building_id: ObjectID,
    pub unit_type_id: UnitTypeID,
    pub target_id: Option<ObjectID>,
}

impl MakeCommand {
    /// Read a Make command; its target must be `-1` or an object's number.
    pub fn read_from(input: &[u8], pos: usize) -> (r: Result<(Self, usize), ReadError>)
        requires
            production_readable(input@, pos as int),
        ensures
            match production_at(input@, pos as int) {
                Some((player, building, id, target)) => r matches Ok((c, p)) && c.player_id@
                    == player && c.building_id@ == building && c.unit_type_id@ == id
                    && target_view(c.target_id) == target && p == pos + 15,
                None => r == Err::<(Self, usize), ReadError>(ReadError::UnexpectedEof),
            },
    {
        let (player_id, building_id, id, target_id, p) = read_production(input, pos)?;
        Ok((MakeCommand { player_id, building_id, unit_type_id: UnitTypeID::from(id), target_id }, p))
    }

    /// Write this Make command; its target must fit in an `i32`.
    pub fn write_to(&self, out: &mut Vec<u8>)
        requires
            target_writable(self.target_id),
        ensures
            final(out)@ == old(out)@ + production_bytes(
                self.player_id@,
                self.building_id@,
                self.unit_type_id@,
                target_view(self.target_id),
            ),
    {
        write_production(out, self.player_id, self.building_id, u16::from(self.unit_type_id), self.target_id);
    }
}

/// Start a research.
#[derive(Debug, Default, Clone)]
pub struct ResearchCommand {
    /// The ID of the player starting the research.
    pub player_id: PlayerID,
    /// The building where the research is taking place.
    pub building_id: ObjectID,
    /// The tech ID of the research.
    pub tech_id: TechID,
    /// The object that the research is aimed at, if any.
    pub target_id: Option<ObjectID>,
}

impl ResearchCommand {
    /// Read a Research command; its target must be `-1` or an object's number.
    pub fn read_from(input: &[u8], pos: usize) -> (r: Result<(Self, usize), ReadError>)
        requires
            production_readable(input@, pos as int),
        ensures
            match production_at(input@, pos as int) {
                Some((player, building, id, target)) => r matches Ok((c, p)) && c.player_id@
                    == player && c.building_id@ == building && c.tech_id@ == id && target_view(
                    c.target_id,
                ) == target && p == pos + 15,
                None => r == Err::<(Self, usize), ReadError>(ReadError::UnexpectedEof),
            },
    {
        let (player_id, building_id, id, target_id, p) = read_production(input, pos)?;
        Ok((ResearchCommand { player_id, building_id, tech_id: TechID::from(id), target_id }, p))
    }

    /// Write this Research command; its target must fit in an `i32`.
    pub fn write_to(&self, out: &mut Vec<u8>)
        requires
            target_writable(self.target_id),
        ensures
            final(out)@ == old(out)@ + production_bytes(
                self.player_id@,
                self.building_id@,
                self.tech_id@,
                target_view(self.target_id),
            ),
    {
        write_production(out, self.player_id, self.building_id, u16::from(self.tech_id), self.target_id);
    }
}

/// Queue units in a building.
#[derive(Debug, Default, Clone)]
pub struct QueueCommand {
    /// The ID of the building where this unit is being queued.
    pub building_id: ObjectID,
    /// The ID of the unit type being queued.
    pub unit_type_id: UnitTypeID,
    /// The amount of units to queue.
    pub amount: u16,
}

/// The Queue command at `p`: its building, unit type and amount.
pub open spec fn queue_at(d: Seq<u8>, p: int) -> Option<(u32, u16, u16)> {
    if p + 11 <= d.len() {
        Some((u32_at(d, p + 3), u16_at(d, p + 7), u16_at(d, p + 9)))
    } else {
        None
    }
}

/// The eleven bytes of a Queue command: three bytes of padding, the building, the unit type
/// and the amount.
pub open spec fn queue_bytes(building: u32, unit_type: u16, amount: u16) -> Seq<u8> {
    seq![0u8, 0u8, 0u8] + u32_bytes(building) + u16_bytes(unit_type) + u16_bytes(amount)
}

impl QueueCommand {
    /// Read a Queue command.
    pub fn read_from(input: &[u8], pos: usize) -> (r: Result<(Self, usize), ReadError>)
        ensures
            match queue_at(input@, pos as int) {
                Some((building, unit_type, amount)) => r matches Ok((c, p)) && c.building_id@
                    == building && c.unit_type_id@ == unit_type && c.amount == amount && p == pos
                    + 11,
                None => r == Err::<(Self, usize), ReadError>(ReadError::UnexpectedEof),
            },
    {
        let p = skip(input, pos, 3)?;
        let (building, p) = read_u32_le(input, p)?;
        let (unit_type, p) = read_u16_le(input, p)?;
        let (amount, p) = read_u16_le(input, p)?;
        Ok(
            (
                QueueCommand {
                    building_id: ObjectID::new(building),
                    unit_type_id: UnitTypeID::from(unit_type),
                    amount,
                },
                p,
            ),
        )
    }

    /// Write this Queue command.
    pub fn write_to(&self, out: &mut Vec<u8>)
        ensures
            final(out)@ == old(out)@ + queue_bytes(
                self.building_id@,
                self.unit_type_id@,
                self.amount,
            ),
    {
        out.push(0u8);
        out.push(0u8);
        out.push(0u8);
        put_u32_le(out, self.building_id.get());
        put_u16_le(out, u16::from(self.unit_type_id));
        put_u16_le(out, self.amount);
        assert(final(out)@ =~= old(out)@ + queue_bytes(
            self.building_id@,
            self.unit_type_id@,
            self.amount,
        ));
    }
}

/// A Queue command that was written reads back with the same fields.
pub proof fn law_queue_read_of_write(pre: Seq<u8>, building: u32, unit_type: u16, amount: u16, post: Seq<u8>)
    ensures
        queue_bytes(building, unit_type, amount).len() == 11,
        queue_at(pre + queue_bytes(building, unit_type, amount) + post, pre.len() as int) == Some(
            (building, unit_type, amount),
        ),
{
    lemma_field_lens();
    let d = pre + queue_bytes(building, unit_type, amount) + post;
    let p = pre.len() as int;
    assert(d.subrange(p + 3, p + 7) =~= u32_bytes(building));
    assert(d.subrange(p + 7, p + 9) =~= u16_bytes(unit_type));
    assert(d.subrange(p + 9, p + 11) =~= u16_bytes(amount));
    lemma_u32_field(d, p + 3, building);
    lemma_u16_field(d, p + 7, unit_type);
    lemma_u16_field(d, p + 9, amount);
}

/// The parameters held by a UserPatch AI command, in order.
pub uninterp spec fn held_params(v: ArrayVec<u32, 4>) -> Seq<u32>;

/// `ArrayVec::new`: no parameters.
#[verifier::external_body]
fn params_new() -> (v: ArrayVec<u32, 4>)
    ensures
        held_params(v) == Seq::<u32>::empty(),
{
    ArrayVec::new()
}

/// `ArrayVec::push`: appends a parameter; it panics on a full list, which `requires` rules
/// out.
#[verifier::external_body]
fn params_push(v: &mut ArrayVec<u32, 4>, x: u32)
    requires
        held_params(*old(v)).len() < 4,
    ensures
        held_params(*final(v)) == held_params(*old(v)).push(x),
{
    v.push(x)
}

/// `ArrayVec::len`: the number of parameters, never more than the capacity of 4.
#[verifier::external_body]
fn params_len(v: &ArrayVec<u32, 4>) -> (n: usize)
    ensures
        n == held_params(*v).len(),
        n <= 4,
{
    v.len()
}

/// `ArrayVec::as_slice` indexed at `i`: the parameter at that place.
#[verifier::external_body]
fn params_get(v: &ArrayVec<u32, 4>, i: usize) -> (x: u32)
    requires
        i < held_params(*v).len(),
    ensures
        x == held_params(*v)[i as int],
{
    v.as_slice()[i]
}

/// Meta-command for UserPatch's new AI commands.
#[derive(Debug, Default, Clone)]
pub struct UserPatchAICommand {
    pub player_id: PlayerID,
    /// The AI action; for example 0 moves to an object, 1 sets a unit's AI state, 8 sets an
    /// offensive target priority and 13 sets an AI player's name.
    pub ai_action: u8,
    pub params: ArrayVec<u32, 4>,
}

/// The number of parameters of a UserPatch AI command of `size` bytes.
pub open spec fn num_params(size: u32) -> int {
    (size - 4) / 4
}

/// The UserPatch AI command at `p` with `n` parameters: its action, player and parameters.
pub open spec fn user_patch_ai_at(d: Seq<u8>, p: int, n: int) -> Option<(u8, u8, Seq<u32>)> {
    if p + 3 + 4 * n <= d.len() {
        Some((d[p], d[p + 1], Seq::new(n as nat, |i: int| u32_at(d, p + 3 + 4 * i))))
    } else {
        None
    }
}

/// The bytes of the parameters of a UserPatch AI command.
pub open spec fn params_bytes(s: Seq<u32>) -> Seq<u8>
    decreases s.len(),
{
    if s.len() == 0 {
        Seq::empty()
    } else {
        params_bytes(s.drop_last()) + u32_bytes(s.last())
    }
}

/// The bytes of a UserPatch AI command: the action, the player, a byte of padding and the
/// parameters.
pub open spec fn user_patch_ai_bytes(action: u8, player: u8, params: Seq<u32>) -> Seq<u8> {
    seq![action, player, 0u8] + params_bytes(params)
}

impl UserPatchAICommand {
    /// Read a UserPatch AI command of `size` bytes, which has `(size - 4) / 4` parameters.
    /// Reading one whose size is under 4 or that would have more than three parameters
    /// panics, which `requires` rules out.
    pub fn read_from(input: &[u8], pos: usize, size: u32) -> (r: Result<(Self, usize), ReadError>)
        requires
            4 <= size,
            num_params(size) < 4,
        ensures
            match user_patch_ai_at(input@, pos as int, num_params(size)) {
                Some((action, player, params)) => r matches Ok((c, p)) && c.ai_action == action
                    && c.player_id@ == player && held_params(c.params) == params && p == pos + 3
                    + 4 * num_params(size),
                None => r == Err::<(Self, usize), ReadError>(ReadError::UnexpectedEof),
            },
    {
        let n = (size - 4) / 4;
        let (ai_action, p) = read_u8(input, pos)?;
        let (player, p) = read_u8(input, p)?;
        let (_padding, p) = read_u8(input, p)?;
        let mut params = params_new();
        let mut p = p;
        let mut i: u32 = 0;
        while i < n
            invariant
                n < 4,
                n as int == num_params(size),
                i <= n,
                p == pos + 3 + 4 * i,
                p <= input.len(),
                held_params(params) == Seq::new(i as nat, |k: int| u32_at(input@, pos + 3 + 4 * k)),
            decreases n - i,
        {
            let (x, q) = read_u32_le(input, p)?;
            params_push(&mut params, x);
            assert(held_params(params) =~= Seq::new(
                (i + 1) as nat,
                |k: int| u32_at(input@, pos + 3 + 4 * k),
            ));
            p = q;
            i = i + 1;
        }
        Ok((UserPatchAICommand { player_id: PlayerID::new(player), ai_action, params }, p))
    }

    /// Write this UserPatch AI command.
    pub fn write_to(&self, out: &mut Vec<u8>)
        ensures
            final(out)@ == old(out)@ + user_patch_ai_bytes(
                self.ai_action,
                self.player_id@,
                held_params(self.params),
            ),
    {
        let ghost s = held_params(self.params);
        out.push(self.ai_action);
        out.push(self.player_id.get());
        out.push(0u8);
        let ghost head = out@;
        let n = params_len(&self.params);
        let mut i: usize = 0;
        assert(s.take(0) =~= Seq::<u32>::empty());
        while i < n
            invariant
                i <= n,
                n == s.len(),
                s == held_params(self.params),
                out@ == head + params_bytes(s.take(i as int)),
            decreases n - i,
        {
            put_u32_le(out, params_get(&self.params, i));
            proof {
                assert(s.take(i + 1).drop_last() =~= s.take(i as int));
            }
            i = i + 1;
            assert(out@ =~= head + params_bytes(s.take(i as int)));
        }
        assert(s.take(n as int) =~= s);
        assert(out@ =~= old(out)@ + user_patch_ai_bytes(self.ai_action, self.player_id@, s));
    }
}

proof fn lemma_params_read(s: Seq<u32>, d: Seq<u8>, q: int)
    requires
        0 <= q,
        q + 4 * s.len() <= d.len(),
        d.subrange(q, q + 4 * s.len()) == params_bytes(s),
    ensures
        params_bytes(s).len() == 4 * s.len(),
        forall|i: int| 0 <= i < s.len() ==> #[trigger] u32_at(d, q + 4 * i) == s[i],
    decreases s.len(),
{
    lemma_field_lens();
    if s.len() > 0 {
        let k = s.len() - 1;
        let s0 = s.drop_last();
        lemma_params_len(s0);
        assert(d.subrange(q, q + 4 * k) =~= params_bytes(s).subrange(0, 4 * k));
        assert(params_bytes(s).subrange(0, 4 * k) =~= params_bytes(s0));
        lemma_params_read(s0, d, q);
        assert(d.subrange(q + 4 * k, q + 4 * k + 4) =~= params_bytes(s).subrange(4 * k, 4 * k + 4));
        assert(params_bytes(s).subrange(4 * k, 4 * k + 4) =~= u32_bytes(s[k]));
        lemma_u32_field(d, q + 4 * k, s[k]);
        assert forall|i: int| 0 <= i < s.len() implies #[trigger] u32_at(d, q + 4 * i) == s[i] by {
            if i < k {
                assert(u32_at(d, q + 4 * i) == s0[i]);
            }
        }
    }
}

proof fn lemma_params_len(s: Seq<u32>)
    ensures
        params_bytes(s).len() == 4 * s.len(),
    decreases s.len(),
{
    lemma_field_lens();
    if s.len() > 0 {
        lemma_params_len(s.drop_last());
    }
}

/// A UserPatch AI command that was written reads back with the same fields when it is read
/// as a command with as many parameters.
pub proof fn law_user_patch_ai_read_of_write(
    pre: Seq<u8>,
    action: u8,
    player: u8,
    params: Seq<u32>,
    post: Seq<u8>,
)
    ensures
        user_patch_ai_at(
            pre + user_patch_ai_bytes(action, player, params) + post,
            pre.len() as int,
            params.len() as int,
        ) == Some((action, player, params)),
{
    lemma_params_len(params);
    let d = pre + user_patch_ai_bytes(action, player, params) + post;
    let p = pre.len() as int;
    assert(d.subrange(p + 3, p + 3 + 4 * params.len()) =~= params_bytes(params));
    lemma_params_read(params, d, p + 3);
    let r = Seq::new(params.len(), |i: int| u32_at(d, p + 3 + 4 * i));
    assert forall|i: int| 0 <= i < params.len() implies r[i] == params[i] by {
        assert(u32_at(d, (p + 3) + 4 * i) == params[i]);
    }
    assert(r =~= params);
    assert(d[p] == action && d[p + 1] == player);
}

} // verus!
