//! Commands and other actions in the body of a recorded game.
//!
//! Every action is read from a byte buffer at a position and gives back the position
//! after it; writing appends the action's bytes to a buffer.
use crate::codec::{
    law_le_read_of_write, lemma_le_bytes_len, lemma_pow256_values, le_at, le_bytes, put_i32_le,
    put_i8, put_u32_le, read_bytes, read_i32_le, read_i8, read_u32_le, read_u8, signed_of,
    unsigned_of, ReadError,
};
use crate::lang::encoding::decode_utf8_text;
use crate::rec::ids::{ObjectID, PlayerID};
use vstd::prelude::*;

verus! {

/// A viewpoint update, recording where the player is currently looking.
///
/// This is used for the View Lock feature when watching a game. The coordinates are bit
/// patterns of `f32`s.
#[derive(Debug, Default, Clone)]
pub struct ViewLock {
    /// The X coordinate the player is looking at.
    pub x: u32,
    /// The Y coordinate the player is looking at.
    pub y: u32,
    /// The ID of the POV player.
    pub player: PlayerID,
}

/// The player field of the view lock at `p` holds a player number (another number does
/// not convert, and reading it panics).
pub open spec fn view_lock_readable(d: Seq<u8>, p: int) -> bool {
    p + 12 <= d.len() ==> 0 <= signed_of(le_at(d, p + 8, 4), 4) <= 255
}

impl ViewLock {
    /// Read a view lock action: the two coordinates and the player as a 32-bit number.
    pub fn read_from(input: &[u8], pos: usize) -> (r: Result<(Self, usize), ReadError>)
        requires
            view_lock_readable(input@, pos as int),
        ensures
            r is Ok <==> pos + 12 <= input.len(),
            r matches Ok((v, q)) ==> v.x == le_at(input@, pos as int, 4) && v.y == le_at(
                input@,
                pos + 4,
                4,
            ) && v.player@ == signed_of(le_at(input@, pos + 8, 4), 4) && q == pos + 12,
            r matches Err(e) ==> e == ReadError::UnexpectedEof,
    {
        let (x, p) = read_u32_le(input, pos)?;
        let (y, p) = read_u32_le(input, p)?;
        let (player, p) = read_i32_le(input, p)?;
        Ok((ViewLock { x, y, player: PlayerID::new(player as u8) }, p))
    }

    /// Write a view lock action.
    pub fn write_to(&self, output: &mut Vec<u8>)
        ensures
            final(output)@ == old(output)@ + le_bytes(self.x as nat, 4) + le_bytes(self.y as nat, 4)
                + le_bytes(self.player@ as nat, 4),
    {
        put_u32_le(output, self.x);
        put_u32_le(output, self.y);
        put_i32_le(output, self.player.get() as i32);
        assert(output@ =~= old(output)@ + le_bytes(self.x as nat, 4) + le_bytes(self.y as nat, 4)
            + le_bytes(self.player@ as nat, 4));
    }
}

/// A list of objects that a command applies to.
///
/// The game uses a special value if a command applies to the same objects as the previous command.
/// That way it does not have to resend 40 object IDs every time a player moves their army. It's
/// encoded as `ObjectsList::SameAsLast` here.
#[derive(Debug, Clone)]
pub enum ObjectsList {
    /// Use the same objects as the previous command.
    SameAsLast,
    /// Use this list of objects.
    List(Vec<ObjectID>),
}

/// The numbers of a sequence of object IDs.
pub open spec fn id_numbers(v: Seq<ObjectID>) -> Seq<u32> {
    v.map_values(|o: ObjectID| o@)
}

impl View for ObjectsList {
    /// `None` stands for "the same objects as the last command".
    type V = Option<Seq<u32>>;

    open spec fn view(&self) -> Option<Seq<u32>> {
        match self {
            ObjectsList::SameAsLast => None,
            ObjectsList::List(v) => Some(id_numbers(v@)),
        }
    }
}

/// The number of objects in a list; `SameAsLast` counts as none.
pub open spec fn objects_len(l: Option<Seq<u32>>) -> nat {
    match l {
        None => 0,
        Some(s) => s.len(),
    }
}

/// How many object IDs follow a count field holding `count`.
pub open spec fn objects_count(count: int) -> nat {
    if count < 0 {
        0
    } else {
        count as nat
    }
}

/// The object list that stands at `p` in `d` after a count field holding `count`, and
/// the position after it. A count of `0xFF` or more means `SameAsLast`, and no IDs follow.
pub open spec fn objects_at(d: Seq<u8>, p: int, count: int) -> Option<(Option<Seq<u32>>, int)> {
    if count >= 0xFF {
        Some((None, p))
    } else {
        let n = objects_count(count);
        if p + 4 * n <= d.len() {
            Some((Some(Seq::new(n, |i: int| le_at(d, p + 4 * i, 4) as u32)), p + 4 * n))
        } else {
            None
        }
    }
}

/// The object IDs that stand at `p` are all nonnegative as signed numbers, as far as the
/// input goes (a negative one is not an object ID).
pub open spec fn objects_readable(d: Seq<u8>, p: int, count: int) -> bool {
    count >= 0xFF || forall|i: int|
        0 <= i < objects_count(count) && p + 4 * i + 4 <= d.len() ==> #[trigger] le_at(
            d,
            p + 4 * i,
            4,
        ) < 0x8000_0000
}

/// The little-endian bytes of a sequence of 32-bit numbers.
pub open spec fn u32s_bytes(s: Seq<u32>) -> Seq<u8>
    decreases s.len(),
{
    if s.len() == 0 {
        Seq::empty()
    } else {
        u32s_bytes(s.drop_last()) + le_bytes(s.last() as nat, 4)
    }
}

/// The bytes of an object list: its IDs, if it has any.
pub open spec fn objects_bytes(l: Option<Seq<u32>>) -> Seq<u8> {
    match l {
        None => Seq::empty(),
        Some(s) => u32s_bytes(s),
    }
}

/// The object IDs that a list written by a command can carry: those that read back as
/// nonnegative numbers.
pub open spec fn ids_readable(s: Seq<u32>) -> bool {
    forall|i: int| 0 <= i < s.len() ==> #[trigger] s[i] < 0x8000_0000
}

proof fn lemma_u32s_bytes_layout(s: Seq<u32>)
    ensures
        u32s_bytes(s).len() == 4 * s.len(),
        forall|i: int|
            0 <= i < s.len() ==> u32s_bytes(s).subrange(4 * i, 4 * i + 4) == le_bytes(
                #[trigger] s[i] as nat,
                4,
            ),
    decreases s.len(),
{
    lemma_pow256_values();
    if s.len() > 0 {
        let init = s.drop_last();
        lemma_u32s_bytes_layout(init);
        lemma_le_bytes_len(s.last() as nat, 4);
        let b = u32s_bytes(s);
        assert forall|i: int| 0 <= i < s.len() implies b.subrange(4 * i, 4 * i + 4) == le_bytes(
            #[trigger] s[i] as nat,
            4,
        ) by {
            if i < s.len() - 1 {
                assert(init[i] == s[i]);
                assert(b.subrange(4 * i, 4 * i + 4) =~= u32s_bytes(init).subrange(4 * i, 4 * i + 4));
            } else {
                assert(b.subrange(4 * i, 4 * i + 4) =~= le_bytes(s.last() as nat, 4));
            }
        }
    }
}

/// A list of object IDs that was written reads back as the same list.
pub proof fn law_objects_read_of_write(pre: Seq<u8>, s: Seq<u32>, post: Seq<u8>)
    requires
        s.len() < 0xFF,
    ensures
        objects_at(pre + u32s_bytes(s) + post, pre.len() as int, s.len() as int) == Some(
            (Some(s), (pre.len() + 4 * s.len()) as int),
        ),
        ids_readable(s) ==> objects_readable(
            pre + u32s_bytes(s) + post,
            pre.len() as int,
            s.len() as int,
        ),
{
    lemma_pow256_values();
    lemma_u32s_bytes_layout(s);
    let d = pre + u32s_bytes(s) + post;
    let p = pre.len() as int;
    assert forall|i: int| 0 <= i < s.len() implies #[trigger] le_at(d, p + 4 * i, 4) == s[i] by {
        let pre2 = pre + u32s_bytes(s).subrange(0, 4 * i);
        let post2 = u32s_bytes(s).subrange(4 * i + 4, 4 * s.len() as int) + post;
        assert(u32s_bytes(s) =~= u32s_bytes(s).subrange(0, 4 * i) + le_bytes(s[i] as nat, 4)
            + u32s_bytes(s).subrange(4 * i + 4, 4 * s.len() as int));
        assert(d =~= pre2 + le_bytes(s[i] as nat, 4) + post2);
        law_le_read_of_write(pre2, s[i] as nat, 4, post2);
    }
    let parsed = Seq::new(s.len(), |i: int| le_at(d, p + 4 * i, 4) as u32);
    assert(parsed =~= s);
}

impl ObjectsList {
    /// The empty list of objects.
    pub fn empty() -> (l: ObjectsList)
        ensures
            l@ == Some(Seq::<u32>::empty()),
    {
        let l = ObjectsList::List(Vec::new());
        assert(id_numbers(Seq::<ObjectID>::empty()) =~= Seq::<u32>::empty());
        l
    }

    /// Read a list of objects, after a count field holding `count`.
    pub fn read_from(input: &[u8], pos: usize, count: i32) -> (r: Result<(Self, usize), ReadError>)
        requires
            pos <= input.len(),
            objects_readable(input@, pos as int, count as int),
        ensures
            match objects_at(input@, pos as int, count as int) {
                Some((l, q)) => r matches Ok((list, p)) && list@ == l && p == q,
                None => r == Err::<(Self, usize), ReadError>(ReadError::UnexpectedEof),
            },
    {
        if count >= 0xFF {
            return Ok((ObjectsList::SameAsLast, pos));
        }
        let n: usize = if count < 0 {
            0
        } else {
            count as usize
        };
        let ghost d = input@;
        let mut list: Vec<ObjectID> = Vec::new();
        let mut p: usize = pos;
        let mut i: usize = 0;
        while i < n
            invariant
                d == input@,
                n == objects_count(count as int),
                count < 0xFF,
                objects_readable(d, pos as int, count as int),
                i <= n,
                p == pos + 4 * i,
                p <= input.len(),
                id_numbers(list@) == Seq::new(i as nat, |j: int| le_at(d, pos + 4 * j, 4) as u32),
            decreases n - i,
        {
            proof {
                lemma_pow256_values();
            }
            let (v, q) = match read_i32_le(input, p) {
                Ok(x) => x,
                Err(e) => {
                    return Err(e);
                },
            };
            assert(le_at(d, pos + 4 * i, 4) < 0x8000_0000);
            let id = match ObjectID::try_from(v) {
                Ok(o) => o,
                Err(_) => {
                    assert(false);
                    return Err(ReadError::InvalidData);
                },
            };
            let ghost before = list@;
            list.push(id);
            proof {
                assert(signed_of(le_at(d, pos + 4 * i, 4), 4) == le_at(d, pos + 4 * i, 4));
                assert(id_numbers(list@) =~= id_numbers(before).push(id@));
                assert(id_numbers(list@) =~= Seq::new(
                    (i + 1) as nat,
                    |j: int| le_at(d, pos + 4 * j, 4) as u32,
                ));
            }
            p = q;
            i = i + 1;
        }
        Ok((ObjectsList::List(list), p))
    }

    /// Write a list of objects.
    pub fn write_to(&self, out: &mut Vec<u8>)
        ensures
            final(out)@ == old(out)@ + objects_bytes(self@),
    {
        match self {
            ObjectsList::SameAsLast => {
                assert(old(out)@ + Seq::<u8>::empty() =~= old(out)@);
            },
            ObjectsList::List(list) => {
                let mut i: usize = 0;
                while i < list.len()
                    invariant
                        i <= list.len(),
                        out@ == old(out)@ + u32s_bytes(id_numbers(list@).take(i as int)),
                    decreases list.len() - i,
                {
                    put_u32_le(out, list[i].get());
                    proof {
                        let s = id_numbers(list@);
                        assert(s.take(i + 1).drop_last() =~= s.take(i as int));
                    }
                    i = i + 1;
                }
                assert(id_numbers(list@).take(list.len() as int) =~= id_numbers(list@));
            },
        }
    }

    /// The amount of objects contained in this list.
    ///
    /// For `ObjectsList::SameAsLast` this returns 0.
    pub fn len(&self) -> (n: usize)
        ensures
            n == objects_len(self@),
    {
        match self {
            ObjectsList::SameAsLast => 0,
            ObjectsList::List(list) => list.len(),
        }
    }

    /// Does this list contain 0 objects?
    pub fn is_empty(&self) -> (b: bool)
        ensures
            b == (objects_len(self@) == 0),
    {
        self.len() == 0
    }
}

impl Default for ObjectsList {
    fn default() -> (l: Self)
        ensures
            l@ == Some(Seq::<u32>::empty()),
    {
        ObjectsList::empty()
    }
}


/// The object that a target field holding `t` names: `-1` names none.
pub open spec fn target_of(t: int) -> Option<u32> {
    if t == -1 {
        None
    } else {
        Some(t as u32)
    }
}

/// The bytes of a target field: the object's number, or `-1` for none.
pub open spec fn target_bytes(t: Option<u32>) -> Seq<u8> {
    match t {
        None => le_bytes(0xFFFF_FFFF, 4),
        Some(id) => le_bytes(id as nat, 4),
    }
}

/// A target that a command can carry: one that reads back as a nonnegative number.
pub open spec fn target_writable(t: Option<ObjectID>) -> bool {
    t matches Some(o) ==> o@ <= i32::MAX
}

/// The target field at `p` holds `-1` or an object's number.
pub open spec fn target_readable(d: Seq<u8>, p: int) -> bool {
    let t = signed_of(le_at(d, p, 4), 4);
    t == -1 || t >= 0
}

/// The number of an optional object ID.
pub open spec fn target_view(t: Option<ObjectID>) -> Option<u32> {
    match t {
        None => None,
        Some(o) => Some(o@),
    }
}

pub(crate) proof fn lemma_target_read_of_write(pre: Seq<u8>, t: Option<u32>, post: Seq<u8>)
    requires
        t matches Some(id) ==> id <= i32::MAX,
    ensures
        target_bytes(t).len() == 4,
        target_readable(pre + target_bytes(t) + post, pre.len() as int),
        target_of(signed_of(le_at(pre + target_bytes(t) + post, pre.len() as int, 4), 4)) == t,
{
    lemma_pow256_values();
    match t {
        None => {
            lemma_le_bytes_len(0xFFFF_FFFF, 4);
            law_le_read_of_write(pre, 0xFFFF_FFFF, 4, post);
        },
        Some(id) => {
            lemma_le_bytes_len(id as nat, 4);
            law_le_read_of_write(pre, id as nat, 4, post);
        },
    }
}

/// Reads a target field: `-1` for none, or an object ID.
pub(crate) fn read_target(input: &[u8], pos: usize) -> (r: Result<(Option<ObjectID>, usize), ReadError>)
    requires
        pos + 4 <= input.len() ==> target_readable(input@, pos as int),
    ensures
        r is Ok <==> pos + 4 <= input.len(),
        r matches Ok((t, p)) ==> p == pos + 4 && target_view(t) == target_of(
            signed_of(le_at(input@, pos as int, 4), 4),
        ),
        r matches Err(e) ==> e == ReadError::UnexpectedEof,
{
    let (v, p) = read_i32_le(input, pos)?;
    if v == -1 {
        Ok((None, p))
    } else {
        match ObjectID::try_from(v) {
            Ok(o) => Ok((Some(o), p)),
            Err(_) => {
                assert(false);
                Err(ReadError::InvalidData)
            },
        }
    }
}

/// Writes a target field.
pub(crate) fn write_target(out: &mut Vec<u8>, t: Option<ObjectID>)
    requires
        target_writable(t),
    ensures
        final(out)@ == old(out)@ + target_bytes(target_view(t)),
{
    proof {
        lemma_pow256_values();
    }
    match t {
        None => put_u32_le(out, 0xFFFF_FFFF),
        Some(o) => put_u32_le(out, o.get()),
    }
}

/// Skips `n` bytes, which must be there.
pub(crate) fn skip(input: &[u8], pos: usize, n: usize) -> (r: Result<usize, ReadError>)
    ensures
        r is Ok <==> pos + n <= input.len(),
        r matches Ok(p) ==> p == pos + n,
        r matches Err(e) ==> e == ReadError::UnexpectedEof,
{
    if pos <= input.len() && n <= input.len() - pos {
        Ok(pos + n)
    } else {
        Err(ReadError::UnexpectedEof)
    }
}

/// Task objects to stop.
#[derive(Debug, Clone)]
pub struct StopCommand {
    /// The objects to stop.
    pub objects: ObjectsList,
}

/// The count byte of an object list: `0xFF` for the same objects as the last command,
/// otherwise the number of objects.
pub open spec fn count_byte(objects: Option<Seq<u32>>) -> u8 {
    match objects {
        None => 0xFF,
        Some(s) => s.len() as u8,
    }
}

/// The objects that a command with a one-byte count can carry: the same as the last
/// command, or at most `max` objects that all read back as object IDs.
pub open spec fn objects_writable(objects: Option<Seq<u32>>, max: nat) -> bool {
    match objects {
        None => true,
        Some(s) => s.len() <= max && ids_readable(s),
    }
}

/// The count byte of `l`, pushed onto `out`.
fn put_count_byte(out: &mut Vec<u8>, l: &ObjectsList)
    requires
        objects_len(l@) < 0xFF,
    ensures
        final(out)@ == old(out)@.push(count_byte(l@)),
{
    match l {
        ObjectsList::SameAsLast => out.push(0xFF),
        ObjectsList::List(v) => {
            assert(id_numbers(v@).len() == v@.len());
            out.push(v.len() as u8);
        },
    }
}

/// A count byte followed by the list it counts reads back as that list.
proof fn lemma_counted_read_of_write(pre: Seq<u8>, objects: Option<Seq<u32>>, post: Seq<u8>)
    requires
        objects_writable(objects, 0xFE),
    ensures
        ({
            let d = pre + seq![count_byte(objects)] + objects_bytes(objects) + post;
            &&& d[pre.len() as int] == count_byte(objects)
            &&& objects_readable(d, pre.len() as int + 1, count_byte(objects) as int)
            &&& objects_at(d, pre.len() as int + 1, count_byte(objects) as int) == Some(
                (objects, (pre.len() + 1 + 4 * objects_len(objects)) as int),
            )
        }),
{
    let head = pre + seq![count_byte(objects)];
    let d = pre + seq![count_byte(objects)] + objects_bytes(objects) + post;
    assert(d[pre.len() as int] == count_byte(objects));
    match objects {
        None => {},
        Some(s) => {
            assert(d =~= head + u32s_bytes(s) + post);
            law_objects_read_of_write(head, s, post);
        },
    }
}

/// The Stop command at `p`: its objects, and the position after it. The count is a byte;
/// `0xFF` stands for the same objects as the last command.
pub open spec fn stop_at(d: Seq<u8>, p: int) -> Option<(Option<Seq<u32>>, int)> {
    if p + 1 <= d.len() {
        objects_at(d, p + 1, d[p] as int)
    } else {
        None
    }
}

/// The Stop command at `p` names only object IDs.
pub open spec fn stop_readable(d: Seq<u8>, p: int) -> bool {
    p + 1 <= d.len() ==> objects_readable(d, p + 1, d[p] as int)
}

/// The bytes of a Stop command.
pub open spec fn stop_bytes(objects: Option<Seq<u32>>) -> Seq<u8> {
    seq![count_byte(objects)] + objects_bytes(objects)
}

impl StopCommand {
    /// Read a Stop command.
    pub fn read_from(input: &[u8], pos: usize) -> (r: Result<(Self, usize), ReadError>)
        requires
            pos <= input.len(),
            stop_readable(input@, pos as int),
        ensures
            match stop_at(input@, pos as int) {
                Some((l, q)) => r matches Ok((c, p)) && c.objects@ == l && p == q,
                None => r == Err::<(Self, usize), ReadError>(ReadError::UnexpectedEof),
            },
    {
        let (selected_count, p) = read_u8(input, pos)?;
        let (objects, p) = ObjectsList::read_from(input, p, selected_count as i32)?;
        Ok((StopCommand { objects }, p))
    }

    /// Write this Stop command; the same objects as the last command are written as the
    /// count `0xFF`.
    pub fn write_to(&self, out: &mut Vec<u8>)
        requires
            objects_len(self.objects@) <= 127,
        ensures
            final(out)@ == old(out)@ + stop_bytes(self.objects@),
    {
        put_count_byte(out, &self.objects);
        self.objects.write_to(out);
        proof {
            assert(final(out)@ =~= old(out)@ + stop_bytes(self.objects@));
        }
    }
}

/// A Stop command that was written reads back with the same objects.
pub proof fn law_stop_read_of_write(pre: Seq<u8>, objects: Option<Seq<u32>>, post: Seq<u8>)
    requires
        objects_writable(objects, 127),
    ensures
        stop_readable(pre + stop_bytes(objects) + post, pre.len() as int),
        stop_at(pre + stop_bytes(objects) + post, pre.len() as int) == Some(
            (objects, (pre.len() + 1 + 4 * objects_len(objects)) as int),
        ),
{
    let d = pre + stop_bytes(objects) + post;
    assert(d =~= pre + seq![count_byte(objects)] + objects_bytes(objects) + post);
    lemma_counted_read_of_write(pre, objects, post);
}

/// Set a group of objects's "AI State" (usually known as "stance").
#[derive(Debug, Clone)]
pub struct UnitAIStateCommand {
    /// The new state. Aggressive/Defensive/No Attack/ etc.
    pub state: i8,
    /// The objects whose AI state is being changed.
    pub objects: ObjectsList,
}

/// The UnitAIState command at `p`: its state and objects, and the position after it.
pub open spec fn unit_ai_state_at(d: Seq<u8>, p: int) -> Option<((i8, Option<Seq<u32>>), int)> {
    if p + 2 <= d.len() {
        match objects_at(d, p + 2, d[p] as int) {
            Some((l, q)) => Some(((signed_of(d[p + 1] as nat, 1) as i8, l), q)),
            None => None,
        }
    } else {
        None
    }
}

/// The UnitAIState command at `p` names only object IDs.
pub open spec fn unit_ai_state_readable(d: Seq<u8>, p: int) -> bool {
    p + 2 <= d.len() ==> objects_readable(d, p + 2, d[p] as int)
}

/// The bytes of a UnitAIState command.
pub open spec fn unit_ai_state_bytes(state: i8, objects: Option<Seq<u32>>) -> Seq<u8> {
    seq![count_byte(objects), unsigned_of(state as int, 1) as u8] + objects_bytes(objects)
}

impl UnitAIStateCommand {
    /// Read a UnitAIState command.
    pub fn read_from(input: &[u8], pos: usize) -> (r: Result<(Self, usize), ReadError>)
        requires
            pos <= input.len(),
            unit_ai_state_readable(input@, pos as int),
        ensures
            match unit_ai_state_at(input@, pos as int) {
                Some(((state, l), q)) => r matches Ok((c, p)) && c.state == state && c.objects@
                    == l && p == q,
                None => r == Err::<(Self, usize), ReadError>(ReadError::UnexpectedEof),
            },
    {
        let (selected_count, p) = read_u8(input, pos)?;
        let (state, p) = read_i8(input, p)?;
        let (objects, p) = ObjectsList::read_from(input, p, selected_count as i32)?;
        Ok((UnitAIStateCommand { state, objects }, p))
    }

    /// Write this UnitAIState command; the same objects as the last command are written as
    /// the count `0xFF`.
    pub fn write_to(&self, out: &mut Vec<u8>)
        requires
            objects_len(self.objects@) < 255,
        ensures
            final(out)@ == old(out)@ + unit_ai_state_bytes(self.state, self.objects@),
    {
        put_count_byte(out, &self.objects);
        put_i8(out, self.state);
        self.objects.write_to(out);
        proof {
            assert(final(out)@ =~= old(out)@ + unit_ai_state_bytes(self.state, self.objects@));
        }
    }
}

/// A UnitAIState command that was written reads back with the same state and objects.
pub proof fn law_unit_ai_state_read_of_write(
    pre: Seq<u8>,
    state: i8,
    objects: Option<Seq<u32>>,
    post: Seq<u8>,
)
    requires
        objects_writable(objects, 254),
    ensures
        unit_ai_state_readable(pre + unit_ai_state_bytes(state, objects) + post, pre.len() as int),
        unit_ai_state_at(pre + unit_ai_state_bytes(state, objects) + post, pre.len() as int)
            == Some(((state, objects), (pre.len() + 2 + 4 * objects_len(objects)) as int)),
{
    lemma_pow256_values();
    let d = pre + unit_ai_state_bytes(state, objects) + post;
    let p = pre.len() as int;
    let sb = unsigned_of(state as int, 1) as u8;
    assert(d =~= pre + seq![count_byte(objects), sb] + objects_bytes(objects) + post);
    assert(d[p] == count_byte(objects));
    assert(d[p + 1] == sb);
    crate::codec::lemma_signed_roundtrip(state as int, 1);
    match objects {
        None => {},
        Some(o) => {
            let head = pre + seq![count_byte(objects), sb];
            assert(d =~= head + u32s_bytes(o) + post);
            law_objects_read_of_write(head, o, post);
        },
    }
}

/// The command at `p` that names a target object and a list of objects (Guard or Follow):
/// the target and the objects, and the position after it.
pub open spec fn targeted_at(d: Seq<u8>, p: int) -> Option<((Option<u32>, Option<Seq<u32>>), int)> {
    if p + 7 <= d.len() {
        match objects_at(d, p + 7, d[p] as int) {
            Some((l, q)) => Some(((target_of(signed_of(le_at(d, p + 3, 4), 4)), l), q)),
            None => None,
        }
    } else {
        None
    }
}

/// The Guard or Follow command at `p` names only object IDs.
pub open spec fn targeted_readable(d: Seq<u8>, p: int) -> bool {
    p + 7 <= d.len() ==> target_readable(d, p + 3) && objects_readable(d, p + 7, d[p] as int)
}

/// The bytes of a Guard or Follow command.
pub open spec fn targeted_bytes(target: Option<u32>, objects: Option<Seq<u32>>) -> Seq<u8> {
    seq![objects_len(objects) as u8, 0u8, 0u8] + target_bytes(target) + objects_bytes(objects)
}

/// Reads the fields of a Guard or Follow command.
fn read_targeted(input: &[u8], pos: usize) -> (r: Result<(Option<ObjectID>, ObjectsList, usize), ReadError>)
    requires
        pos <= input.len(),
        targeted_readable(input@, pos as int),
    ensures
        match targeted_at(input@, pos as int) {
            Some(((t, l), q)) => r matches Ok((target, objects, p)) && target_view(target) == t
                && objects@ == l && p == q,
            None => r == Err::<(Option<ObjectID>, ObjectsList, usize), ReadError>(
                ReadError::UnexpectedEof,
            ),
        },
{
    let (selected_count, p) = read_u8(input, pos)?;
    let p = skip(input, p, 2)?;
    let (target, p) = read_target(input, p)?;
    let (objects, p) = ObjectsList::read_from(input, p, selected_count as i32)?;
    Ok((target, objects, p))
}

/// Writes the fields of a Guard or Follow command.
fn write_targeted(out: &mut Vec<u8>, target: Option<ObjectID>, objects: &ObjectsList)
    requires
        objects_len(objects@) <= 255,
        target_writable(target),
    ensures
        final(out)@ == old(out)@ + targeted_bytes(target_view(target), objects@),
{
    let n = objects.len();
    out.push(n as u8);
    out.push(0u8);
    out.push(0u8);
    write_target(out, target);
    objects.write_to(out);
    proof {
        assert(final(out)@ =~= old(out)@ + targeted_bytes(target_view(target), objects@));
    }
}

/// A Guard or Follow command that was written reads back with the same target and
/// objects, when it has fewer than 255 objects.
pub proof fn law_targeted_read_of_write(
    pre: Seq<u8>,
    target: Option<u32>,
    objects: Seq<u32>,
    post: Seq<u8>,
)
    requires
        objects.len() < 255,
        ids_readable(objects),
        target matches Some(id) ==> id <= i32::MAX,
    ensures
        targeted_readable(pre + targeted_bytes(target, Some(objects)) + post, pre.len() as int),
        targeted_at(pre + targeted_bytes(target, Some(objects)) + post, pre.len() as int) == Some(
            ((target, Some(objects)), (pre.len() + 7 + 4 * objects.len()) as int),
        ),
{
    lemma_pow256_values();
    let d = pre + targeted_bytes(target, Some(objects)) + post;
    let count = seq![objects.len() as u8, 0u8, 0u8];
    lemma_target_read_of_write(pre + count, target, u32s_bytes(objects) + post);
    assert(d =~= pre + count + target_bytes(target) + (u32s_bytes(objects) + post));
    let head = pre + count + target_bytes(target);
    assert(d =~= head + u32s_bytes(objects) + post);
    assert(d[pre.len() as int] == objects.len() as u8);
    law_objects_read_of_write(head, objects, post);
}

/// Task units to guard an object.
#[derive(Debug, Clone)]
pub struct GuardCommand {
    /// The target object of this order.
    pub target_id: Option<ObjectID>,
    /// The objects this command applies to.
    pub objects: ObjectsList,
}

impl GuardCommand {
    /// Read a Guard command.
    pub fn read_from(input: &[u8], pos: usize) -> (r: Result<(Self, usize), ReadError>)
        requires
            pos <= input.len(),
            targeted_readable(input@, pos as int),
        ensures
            match targeted_at(input@, pos as int) {
                Some(((t, l), q)) => r matches Ok((c, p)) && target_view(c.target_id) == t
                    && c.objects@ == l && p == q,
                None => r == Err::<(Self, usize), ReadError>(ReadError::UnexpectedEof),
            },
    {
        let (target_id, objects, p) = read_targeted(input, pos)?;
        Ok((GuardCommand { target_id, objects }, p))
    }

    /// Write a Guard command.
    pub fn write_to(&self, out: &mut Vec<u8>)
        requires
            objects_len(self.objects@) <= 255,
            target_writable(self.target_id),
        ensures
            final(out)@ == old(out)@ + targeted_bytes(target_view(self.target_id), self.objects@),
    {
        write_targeted(out, self.target_id, &self.objects);
    }
}

/// Task units to follow an object.
#[derive(Debug, Clone)]
pub struct FollowCommand {
    /// The target object of this order.
    pub target_id: Option<ObjectID>,
    /// The objects this command applies to.
    pub objects: ObjectsList,
}

impl FollowCommand {
    /// Read a Follow command.
    pub fn read_from(input: &[u8], pos: usize) -> (r: Result<(Self, usize), ReadError>)
        requires
            pos <= input.len(),
            targeted_readable(input@, pos as int),
        ensures
            match targeted_at(input@, pos as int) {
                Some(((t, l), q)) => r matches Ok((c, p)) && target_view(c.target_id) == t
                    && c.objects@ == l && p == q,
                None => r == Err::<(Self, usize), ReadError>(ReadError::UnexpectedEof),
            },
    {
        let (target_id, objects, p) = read_targeted(input, pos)?;
        Ok((FollowCommand { target_id, objects }, p))
    }

    /// Write a Follow command.
    pub fn write_to(&self, out: &mut Vec<u8>)
        requires
            objects_len(self.objects@) <= 255,
            target_writable(self.target_id),
        ensures
            final(out)@ == old(out)@ + targeted_bytes(target_view(self.target_id), self.objects@),
    {
        write_targeted(out, self.target_id, &self.objects);
    }
}

/// Task a group of objects to form a formation.
#[derive(Debug, Clone)]
pub struct FormFormationCommand {
    /// The ID of the player issuing this command.
    pub player_id: PlayerID,
    /// The type of formation to form.
    pub formation_type: i32,
    /// The objects to include in this formation.
    pub objects: ObjectsList,
}

/// The FormFormation command at `p`: its player, formation type and objects, and the
/// position after it.
pub open spec fn form_formation_at(d: Seq<u8>, p: int) -> Option<((u8, i32, Option<Seq<u32>>), int)> {
    if p + 7 <= d.len() {
        match objects_at(d, p + 7, signed_of(d[p] as nat, 1)) {
            Some((l, q)) => Some(((d[p + 1], signed_of(le_at(d, p + 3, 4), 4) as i32, l), q)),
            None => None,
        }
    } else {
        None
    }
}

/// The FormFormation command at `p` names only object IDs.
pub open spec fn form_formation_readable(d: Seq<u8>, p: int) -> bool {
    p + 7 <= d.len() ==> objects_readable(d, p + 7, signed_of(d[p] as nat, 1))
}

/// The bytes of a FormFormation command.
pub open spec fn form_formation_bytes(player: u8, formation_type: i32, objects: Option<Seq<u32>>) -> Seq<u8> {
    seq![objects_len(objects) as u8, player, 0u8] + le_bytes(unsigned_of(formation_type as int, 4), 4)
        + objects_bytes(objects)
}

impl FormFormationCommand {
    /// Read a FormFormation command.
    pub fn read_from(input: &[u8], pos: usize) -> (r: Result<(Self, usize), ReadError>)
        requires
            pos <= input.len(),
            form_formation_readable(input@, pos as int),
        ensures
            match form_formation_at(input@, pos as int) {
                Some(((player, formation_type, l), q)) => r matches Ok((c, p)) && c.player_id@
                    == player && c.formation_type == formation_type && c.objects@ == l && p == q,
                None => r == Err::<(Self, usize), ReadError>(ReadError::UnexpectedEof),
            },
    {
        let (selected_count, p) = read_i8(input, pos)?;
        let (player, p) = read_u8(input, p)?;
        let p = skip(input, p, 1)?;
        let (formation_type, p) = read_i32_le(input, p)?;
        let (objects, p) = ObjectsList::read_from(input, p, selected_count as i32)?;
        Ok((FormFormationCommand { player_id: PlayerID::new(player), formation_type, objects }, p))
    }

    /// Write a FormFormation command.
    pub fn write_to(&self, out: &mut Vec<u8>)
        requires
            objects_len(self.objects@) <= 127,
        ensures
            final(out)@ == old(out)@ + form_formation_bytes(
                self.player_id@,
                self.formation_type,
                self.objects@,
            ),
    {
        let n = self.objects.len();
        put_i8(out, n as i8);
        out.push(self.player_id.get());
        out.push(0u8);
        put_i32_le(out, self.formation_type);
        self.objects.write_to(out);
        proof {
            lemma_pow256_values();
            assert(final(out)@ =~= old(out)@ + form_formation_bytes(
                self.player_id@,
                self.formation_type,
                self.objects@,
            ));
        }
    }
}

/// A FormFormation command that was written reads back with the same fields.
pub proof fn law_form_formation_read_of_write(
    pre: Seq<u8>,
    player: u8,
    formation_type: i32,
    objects: Seq<u32>,
    post: Seq<u8>,
)
    requires
        objects.len() <= 127,
        ids_readable(objects),
    ensures
        form_formation_readable(
            pre + form_formation_bytes(player, formation_type, Some(objects)) + post,
            pre.len() as int,
        ),
        form_formation_at(
            pre + form_formation_bytes(player, formation_type, Some(objects)) + post,
            pre.len() as int,
        ) == Some(((player, formation_type, Some(objects)), (pre.len() + 7 + 4 * objects.len()) as int)),
{
    lemma_pow256_values();
    let d = pre + form_formation_bytes(player, formation_type, Some(objects)) + post;
    let head3 = seq![objects.len() as u8, player, 0u8];
    let ft = le_bytes(unsigned_of(formation_type as int, 4), 4);
    lemma_le_bytes_len(unsigned_of(formation_type as int, 4), 4);
    assert(d =~= (pre + head3) + ft + (u32s_bytes(objects) + post));
    crate::codec::law_signed_le_read_of_write(pre + head3, formation_type as int, 4, u32s_bytes(objects) + post);
    let head = pre + head3 + ft;
    assert(d =~= head + u32s_bytes(objects) + post);
    assert(d[pre.len() as int] == objects.len() as u8);
    assert(d[pre.len() + 1int] == player);
    law_objects_read_of_write(head, objects, post);
}


/// A player resigns or drops from the game.
#[derive(Debug, Default, Clone)]
pub struct ResignCommand {
    /// The ID of the player that is resigning.
    pub player_id: PlayerID,
    /// The multiplayer ID of the player that is resigning.
    pub comm_player_id: PlayerID,
    /// Is this "resignation" because the player dropped from the game?
    pub dropped: bool,
}

/// The Resign command at `p`: its player, multiplayer player and dropped flag.
pub open spec fn resign_at(d: Seq<u8>, p: int) -> Option<(u8, u8, bool)> {
    if p + 3 <= d.len() {
        Some((d[p], d[p + 1], d[p + 2] != 0))
    } else {
        None
    }
}

/// The byte of a flag: 1 for set, 0 for clear.
pub open spec fn flag(b: bool) -> u8 {
    if b {
        1
    } else {
        0
    }
}

/// The bytes of a Resign command.
pub open spec fn resign_bytes(player: u8, comm_player: u8, dropped: bool) -> Seq<u8> {
    seq![player, comm_player, flag(dropped)]
}

impl ResignCommand {
    /// Read a Resign command.
    pub fn read_from(input: &[u8], pos: usize) -> (r: Result<(Self, usize), ReadError>)
        ensures
            match resign_at(input@, pos as int) {
                Some((player, comm, dropped)) => r matches Ok((c, p)) && c.player_id@ == player
                    && c.comm_player_id@ == comm && c.dropped == dropped && p == pos + 3,
                None => r == Err::<(Self, usize), ReadError>(ReadError::UnexpectedEof),
            },
    {
        let (player_id, p) = read_u8(input, pos)?;
        let (comm_player_id, p) = read_u8(input, p)?;
        let (dropped, p) = read_u8(input, p)?;
        Ok((
            ResignCommand {
                player_id: PlayerID::new(player_id),
                comm_player_id: PlayerID::new(comm_player_id),
                dropped: dropped != 0,
            },
            p,
        ))
    }

    /// Write this Resign command.
    pub fn write_to(&self, out: &mut Vec<u8>)
        ensures
            final(out)@ == old(out)@ + resign_bytes(
                self.player_id@,
                self.comm_player_id@,
                self.dropped,
            ),
    {
        out.push(self.player_id.get());
        out.push(self.comm_player_id.get());
        out.push(if self.dropped { 1u8 } else { 0u8 });
        assert(final(out)@ =~= old(out)@ + resign_bytes(
            self.player_id@,
            self.comm_player_id@,
            self.dropped,
        ));
    }
}

/// A Resign command that was written reads back with the same fields.
pub proof fn law_resign_read_of_write(
    pre: Seq<u8>,
    player: u8,
    comm_player: u8,
    dropped: bool,
    post: Seq<u8>,
)
    ensures
        resign_at(pre + resign_bytes(player, comm_player, dropped) + post, pre.len() as int)
            == Some((player, comm_player, dropped)),
{
    let d = pre + resign_bytes(player, comm_player, dropped) + post;
    let p = pre.len() as int;
    assert(d[p] == player && d[p + 1] == comm_player && d[p + 2] == flag(dropped));
}

/// Set a waypoint for a group of objects.
#[derive(Debug, Default, Clone)]
pub struct GroupWaypointCommand {
    /// The ID of the player issuing this command.
    pub player_id: PlayerID,
    /// The object whose group gets the waypoint.
    pub object_id: ObjectID,
    waypoints: i8,
}

/// The GroupWaypoint command at `p`: its player, object and waypoint count.
pub open spec fn group_waypoint_at(d: Seq<u8>, p: int) -> Option<(u8, u32, i8)> {
    if p + 9 <= d.len() {
        Some((d[p], le_at(d, p + 3, 4) as u32, signed_of(d[p + 7] as nat, 1) as i8))
    } else {
        None
    }
}

/// The bytes of a GroupWaypoint command.
pub open spec fn group_waypoint_bytes(player: u8, object: u32, waypoints: i8) -> Seq<u8> {
    seq![player, 0u8, 0u8] + le_bytes(object as nat, 4) + seq![
        unsigned_of(waypoints as int, 1) as u8,
        0u8,
    ]
}

impl View for GroupWaypointCommand {
    /// The player's number, the object's number and the waypoint count.
    type V = (u8, u32, i8);

    closed spec fn view(&self) -> (u8, u32, i8) {
        (self.player_id@, self.object_id@, self.waypoints)
    }
}

impl GroupWaypointCommand {
    /// Read a GroupWaypoint command.
    pub fn read_from(input: &[u8], pos: usize) -> (r: Result<(Self, usize), ReadError>)
        ensures
            match group_waypoint_at(input@, pos as int) {
                Some(fields) => r matches Ok((c, p)) && c@ == fields && p == pos + 9,
                None => r == Err::<(Self, usize), ReadError>(ReadError::UnexpectedEof),
            },
    {
        let (player_id, p) = read_u8(input, pos)?;
        let p = skip(input, p, 2)?;
        let (object_id, p) = read_u32_le(input, p)?;
        let (waypoints, p) = read_i8(input, p)?;
        let p = skip(input, p, 1)?;
        Ok((
            GroupWaypointCommand {
                player_id: PlayerID::new(player_id),
                object_id: ObjectID::new(object_id),
                waypoints,
            },
            p,
        ))
    }

    /// Write this GroupWaypoint command.
    pub fn write_to(&self, out: &mut Vec<u8>)
        ensures
            final(out)@ == old(out)@ + group_waypoint_bytes(self@.0, self@.1, self@.2),
    {
        out.push(self.player_id.get());
        out.push(0u8);
        out.push(0u8);
        put_u32_le(out, self.object_id.get());
        put_i8(out, self.waypoints);
        out.push(0u8);
        assert(final(out)@ =~= old(out)@ + group_waypoint_bytes(self@.0, self@.1, self@.2));
    }
}

/// A GroupWaypoint command that was written reads back with the same fields.
pub proof fn law_group_waypoint_read_of_write(
    pre: Seq<u8>,
    player: u8,
    object: u32,
    waypoints: i8,
    post: Seq<u8>,
)
    ensures
        group_waypoint_at(pre + group_waypoint_bytes(player, object, waypoints) + post, pre.len() as int)
            == Some((player, object, waypoints)),
{
    lemma_pow256_values();
    lemma_le_bytes_len(object as nat, 4);
    let tail = seq![unsigned_of(waypoints as int, 1) as u8, 0u8];
    let d = pre + group_waypoint_bytes(player, object, waypoints) + post;
    let p = pre.len() as int;
    assert(d =~= (pre + seq![player, 0u8, 0u8]) + le_bytes(object as nat, 4) + (tail + post));
    law_le_read_of_write(pre + seq![player, 0u8, 0u8], object as nat, 4, tail + post);
    assert(d[p] == player);
    assert(d[p + 7] == unsigned_of(waypoints as int, 1) as u8);
    crate::codec::lemma_signed_roundtrip(waypoints as int, 1);
}

/// Delete a building or cancel a building that's not fully built yet.
#[derive(Debug, Default, Clone)]
pub struct CancelBuildCommand {
    /// The ID of the player issuing this command.
    pub player_id: PlayerID,
    /// The ID of the building to cancel.
    pub building_id: ObjectID,
}

/// The CancelBuild command at `p`: its player and building.
pub open spec fn cancel_build_at(d: Seq<u8>, p: int) -> Option<(u8, u32)> {
    if p + 11 <= d.len() {
        Some((le_at(d, p + 7, 4) as u8, le_at(d, p + 3, 4) as u32))
    } else {
        None
    }
}

/// The player field of the CancelBuild command at `p` holds a player number.
pub open spec fn cancel_build_readable(d: Seq<u8>, p: int) -> bool {
    p + 11 <= d.len() ==> le_at(d, p + 7, 4) <= 255
}

/// The bytes of a CancelBuild command.
pub open spec fn cancel_build_bytes(player: u8, building: u32) -> Seq<u8> {
    seq![0u8, 0u8, 0u8] + le_bytes(building as nat, 4) + le_bytes(player as nat, 4)
}

impl CancelBuildCommand {
    /// Read a CancelBuild command.
    pub fn read_from(input: &[u8], pos: usize) -> (r: Result<(Self, usize), ReadError>)
        requires
            cancel_build_readable(input@, pos as int),
        ensures
            match cancel_build_at(input@, pos as int) {
                Some((player, building)) => r matches Ok((c, p)) && c.player_id@ == player
                    && c.building_id@ == building && p == pos + 11,
                None => r == Err::<(Self, usize), ReadError>(ReadError::UnexpectedEof),
            },
    {
        let p = skip(input, pos, 3)?;
        let (building_id, p) = read_u32_le(input, p)?;
        let (player, p) = read_u32_le(input, p)?;
        let player_id = match PlayerID::try_from(player) {
            Ok(id) => id,
            Err(_) => {
                assert(false);
                return Err(ReadError::InvalidData);
            },
        };
        Ok((CancelBuildCommand { player_id, building_id: ObjectID::new(building_id) }, p))
    }

    /// Write this CancelBuild command.
    pub fn write_to(&self, out: &mut Vec<u8>)
        ensures
            final(out)@ == old(out)@ + cancel_build_bytes(self.player_id@, self.building_id@),
    {
        out.push(0u8);
        out.push(0u8);
        out.push(0u8);
        put_u32_le(out, self.building_id.get());
        put_u32_le(out, self.player_id.get() as u32);
        assert(final(out)@ =~= old(out)@ + cancel_build_bytes(self.player_id@, self.building_id@));
    }
}

/// A CancelBuild command that was written reads back with the same fields.
pub proof fn law_cancel_build_read_of_write(pre: Seq<u8>, player: u8, building: u32, post: Seq<u8>)
    ensures
        cancel_build_readable(pre + cancel_build_bytes(player, building) + post, pre.len() as int),
        cancel_build_at(pre + cancel_build_bytes(player, building) + post, pre.len() as int)
            == Some((player, building)),
{
    lemma_pow256_values();
    lemma_le_bytes_len(building as nat, 4);
    lemma_le_bytes_len(player as nat, 4);
    let d = pre + cancel_build_bytes(player, building) + post;
    let zeros = seq![0u8, 0u8, 0u8];
    assert(d =~= (pre + zeros) + le_bytes(building as nat, 4) + (le_bytes(player as nat, 4) + post));
    law_le_read_of_write(pre + zeros, building as nat, 4, le_bytes(player as nat, 4) + post);
    assert(d =~= (pre + zeros + le_bytes(building as nat, 4)) + le_bytes(player as nat, 4) + post);
    law_le_read_of_write(pre + zeros + le_bytes(building as nat, 4), player as nat, 4, post);
}

/// The market command at `p` (Sell or Buy): its player, resource, amount and market.
pub open spec fn market_at(d: Seq<u8>, p: int) -> Option<(u8, u8, i8, u32)> {
    if p + 7 <= d.len() {
        Some((d[p], d[p + 1], signed_of(d[p + 2] as nat, 1) as i8, le_at(d, p + 3, 4) as u32))
    } else {
        None
    }
}

/// The bytes of a Sell or Buy command.
pub open spec fn market_bytes(player: u8, resource: u8, amount: i8, market: u32) -> Seq<u8> {
    seq![player, resource, unsigned_of(amount as int, 1) as u8] + le_bytes(market as nat, 4)
}

/// Reads the fields of a Sell or Buy command.
fn read_market(input: &[u8], pos: usize) -> (r: Result<(PlayerID, u8, i8, ObjectID, usize), ReadError>)
    ensures
        match market_at(input@, pos as int) {
            Some((player, resource, amount, market)) => r matches Ok((pl, re, am, ma, p))
                && pl@ == player && re == resource && am == amount && ma@ == market && p == pos
                + 7,
            None => r == Err::<(PlayerID, u8, i8, ObjectID, usize), ReadError>(
                ReadError::UnexpectedEof,
            ),
        },
{
    let (player_id, p) = read_u8(input, pos)?;
    let (resource, p) = read_u8(input, p)?;
    let (amount, p) = read_i8(input, p)?;
    let (market_id, p) = read_u32_le(input, p)?;
    Ok((PlayerID::new(player_id), resource, amount, ObjectID::new(market_id), p))
}

/// Writes the fields of a Sell or Buy command.
fn write_market(out: &mut Vec<u8>, player: PlayerID, resource: u8, amount: i8, market: ObjectID)
    ensures
        final(out)@ == old(out)@ + market_bytes(player@, resource, amount, market@),
{
    out.push(player.get());
    out.push(resource);
    put_i8(out, amount);
    put_u32_le(out, market.get());
    assert(final(out)@ =~= old(out)@ + market_bytes(player@, resource, amount, market@));
}

/// A Sell or Buy command that was written reads back with the same fields.
pub proof fn law_market_read_of_write(
    pre: Seq<u8>,
    player: u8,
    resource: u8,
    amount: i8,
    market: u32,
    post: Seq<u8>,
)
    ensures
        market_at(pre + market_bytes(player, resource, amount, market) + post, pre.len() as int)
            == Some((player, resource, amount, market)),
{
    lemma_pow256_values();
    lemma_le_bytes_len(market as nat, 4);
    let head = seq![player, resource, unsigned_of(amount as int, 1) as u8];
    let d = pre + market_bytes(player, resource, amount, market) + post;
    let p = pre.len() as int;
    assert(d =~= (pre + head) + le_bytes(market as nat, 4) + post);
    law_le_read_of_write(pre + head, market as nat, 4, post);
    assert(d[p] == player && d[p + 1] == resource);
    assert(d[p + 2] == unsigned_of(amount as int, 1) as u8);
    crate::codec::lemma_signed_roundtrip(amount as int, 1);
}

/// Sell a resource at the market.
#[derive(Debug, Default, Clone)]
pub struct SellResourceCommand {
    /// The ID of the player issuing this command.
    pub player_id: PlayerID,
    /// The resource being sold.
    pub resource: u8,
    /// The amount being sold, in 100s. Typically this is 1 for selling 100 of a resource, or 5 for
    /// selling 500 (with Shift-click).
    pub amount: i8,
    /// The ID of the building where this resource is being bought.
    pub market_id: ObjectID,
}

impl SellResourceCommand {
    /// Read a SellResource command.
    pub fn read_from(input: &[u8], pos: usize) -> (r: Result<(Self, usize), ReadError>)
        ensures
            match market_at(input@, pos as int) {
                Some((player, resource, amount, market)) => r matches Ok((c, p)) && c.player_id@
                    == player && c.resource == resource && c.amount == amount && c.market_id@
                    == market && p == pos + 7,
                None => r == Err::<(Self, usize), ReadError>(ReadError::UnexpectedEof),
            },
    {
        let (player_id, resource, amount, market_id, p) = read_market(input, pos)?;
        Ok((SellResourceCommand { player_id, resource, amount, market_id }, p))
    }

    /// Write this SellResource command.
    pub fn write_to(&self, out: &mut Vec<u8>)
        ensures
            final(out)@ == old(out)@ + market_bytes(
                self.player_id@,
                self.resource,
                self.amount,
                self.market_id@,
            ),
    {
        write_market(out, self.player_id, self.resource, self.amount, self.market_id);
    }
}

/// Buy a resource at the market.
#[derive(Debug, Default, Clone)]
pub struct BuyResourceCommand {
    /// The ID of the player issuing this command.
    pub player_id: PlayerID,
    /// The resource being bought.
    pub resource: u8,
    /// The amount being bought, in 100s. Typically this is 1 for buying 100 of a resource, or 5 for
    /// buying 500 (with Shift-click).
    pub amount: i8,
    /// The ID of the building where this resource is being bought.
    pub market_id: ObjectID,
}

impl BuyResourceCommand {
    /// Read a BuyResource command.
    pub fn read_from(input: &[u8], pos: usize) -> (r: Result<(Self, usize), ReadError>)
        ensures
            match market_at(input@, pos as int) {
                Some((player, resource, amount, market)) => r matches Ok((c, p)) && c.player_id@
                    == player && c.resource == resource && c.amount == amount && c.market_id@
                    == market && p == pos + 7,
                None => r == Err::<(Self, usize), ReadError>(ReadError::UnexpectedEof),
            },
    {
        let (player_id, resource, amount, market_id, p) = read_market(input, pos)?;
        Ok((BuyResourceCommand { player_id, resource, amount, market_id }, p))
    }

    /// Write this BuyResource command.
    pub fn write_to(&self, out: &mut Vec<u8>)
        ensures
            final(out)@ == old(out)@ + market_bytes(
                self.player_id@,
                self.resource,
                self.amount,
                self.market_id@,
            ),
    {
        write_market(out, self.player_id, self.resource, self.amount, self.market_id);
    }
}

/// Send villagers back to work after they've been garrisoned into the Town Center.
#[derive(Debug, Default, Clone)]
pub struct BackToWorkCommand {
    /// The building the villagers leave.
    pub building_id: ObjectID,
}

impl BackToWorkCommand {
    /// Read a BackToWork command: three bytes of padding and the building's ID.
    pub fn read_from(input: &[u8], pos: usize) -> (r: Result<(Self, usize), ReadError>)
        ensures
            r is Ok <==> pos + 7 <= input.len(),
            r matches Ok((c, p)) ==> c.building_id@ == le_at(input@, pos + 3, 4) && p == pos + 7,
            r matches Err(e) ==> e == ReadError::UnexpectedEof,
    {
        let p = skip(input, pos, 3)?;
        let (building_id, p) = read_u32_le(input, p)?;
        Ok((BackToWorkCommand { building_id: ObjectID::new(building_id) }, p))
    }
}

/// A unit's action of entering an object, as stored in unit data.
#[derive(Debug, Default, Clone)]
pub struct ActionEnter {
    /// The time at which the unit first entered.
    pub first_time: u32,
}

impl ActionEnter {
    /// Read an Enter action.
    pub fn read_from(input: &[u8], pos: usize) -> (r: Result<(Self, usize), ReadError>)
        ensures
            r is Ok <==> pos + 4 <= input.len(),
            r matches Ok((a, p)) ==> a.first_time == le_at(input@, pos as int, 4) && p == pos + 4,
            r matches Err(e) ==> e == ReadError::UnexpectedEof,
    {
        let (first_time, p) = read_u32_le(input, pos)?;
        Ok((ActionEnter { first_time }, p))
    }

    /// Write an Enter action.
    pub fn write_to(&self, out: &mut Vec<u8>)
        ensures
            final(out)@ == old(out)@ + le_bytes(self.first_time as nat, 4),
    {
        put_u32_le(out, self.first_time);
    }
}


/// A sync action: the game time and, now and then, checksums of the game state.
#[derive(Debug, Default, Clone)]
pub struct Sync {
    /// The sequence number, where the recording uses them.
    pub sequence: Option<u8>,
    /// The game time.
    pub time: u32,
    /// The checksum, position checksum and action checksum.
    pub checksums: Option<(u32, u32, u32)>,
    /// The world time of the next sync.
    pub next_world_time: Option<u32>,
}

/// The fields of a sync action: sequence number, time, checksums and next world time.
pub type SyncFields = (Option<u8>, u32, Option<(u32, u32, u32)>, Option<u32>);

/// The sync action at `p`, and the position after it.
pub open spec fn sync_at(d: Seq<u8>, p: int, use_sequence_numbers: bool, includes_checksum: bool) -> Option<
    (SyncFields, int),
> {
    let t = if use_sequence_numbers {
        p + 1
    } else {
        p
    };
    let sequence = if use_sequence_numbers {
        Some(d[p])
    } else {
        None
    };
    if t + 4 > d.len() {
        None
    } else {
        let time = le_at(d, t, 4) as u32;
        if !includes_checksum {
            Some(((sequence, time, None, None), t + 4))
        } else if t + 8 > d.len() {
            None
        } else if le_at(d, t + 4, 4) != 0 {
            Some(((sequence, time, None, None), t + 8))
        } else if t + 32 > d.len() {
            None
        } else {
            Some(
                (
                    (
                        sequence,
                        time,
                        Some(
                            (
                                le_at(d, t + 12, 4) as u32,
                                le_at(d, t + 16, 4) as u32,
                                le_at(d, t + 20, 4) as u32,
                            ),
                        ),
                        Some(le_at(d, t + 28, 4) as u32),
                    ),
                    t + 32,
                ),
            )
        }
    }
}

impl Sync {
    /// Read a sync action.
    pub fn read_from(
        input: &[u8],
        pos: usize,
        use_sequence_numbers: bool,
        includes_checksum: bool,
    ) -> (r: Result<(Self, usize), ReadError>)
        ensures
            match sync_at(input@, pos as int, use_sequence_numbers, includes_checksum) {
                Some((fields, q)) => r matches Ok((s, p)) && (s.sequence, s.time, s.checksums, s.next_world_time)
                    == fields && p == q,
                None => r == Err::<(Self, usize), ReadError>(ReadError::UnexpectedEof),
            },
    {
        let mut p = pos;
        let sequence = if use_sequence_numbers {
            let (s, q) = read_u8(input, p)?;
            p = q;
            Some(s)
        } else {
            None
        };
        let (time, q) = read_u32_le(input, p)?;
        p = q;
        let mut sync = Sync { sequence, time, checksums: None, next_world_time: None };
        if includes_checksum {
            let (check_bytes, q) = read_u32_le(input, p)?;
            p = q;
            if check_bytes == 0 {
                let (_always_zero, q) = read_u32_le(input, p)?;
                let (checksum, q) = read_u32_le(input, q)?;
                let (position_checksum, q) = read_u32_le(input, q)?;
                let (action_checksum, q) = read_u32_le(input, q)?;
                let (_always_zero, q) = read_u32_le(input, q)?;
                let (next_world_time, q) = read_u32_le(input, q)?;
                p = q;
                sync.next_world_time = Some(next_world_time);
                sync.checksums = Some((checksum, position_checksum, action_checksum));
            }
        }
        Ok((sync, p))
    }
}

/// Action at the start of the game, contains settings affecting the rec format.
#[derive(Debug, Default, Clone)]
pub struct Meta {
    /// The number of syncs between two checksums.
    pub checksum_interval: u32,
    /// Is this a multiplayer game?
    pub is_multiplayer: bool,
    /// Do actions carry sequence numbers?
    pub use_sequence_numbers: bool,
    /// The player who recorded the game.
    pub local_player_id: PlayerID,
    /// The position of the header.
    pub header_position: u32,
    /// The amount of saved chapters in this rec / save game. This is only set if the game version
    /// that generated the file supports saved chapters (i.e. The Conquerors and up).
    pub num_chapters: Option<u32>,
}

/// The fields of the metadata that all versions share, at `p`: checksum interval,
/// multiplayer flag, local player, header position and sequence number flag.
pub open spec fn meta_inner_at(d: Seq<u8>, p: int) -> Option<(u32, bool, u8, u32, bool)> {
    if p + 20 <= d.len() {
        Some(
            (
                le_at(d, p, 4) as u32,
                le_at(d, p + 4, 4) != 0,
                le_at(d, p + 8, 4) as u8,
                le_at(d, p + 12, 4) as u32,
                le_at(d, p + 16, 4) != 0,
            ),
        )
    } else {
        None
    }
}

/// The local player field of the metadata at `p` holds a player number.
pub open spec fn meta_readable(d: Seq<u8>, p: int) -> bool {
    p + 12 <= d.len() ==> le_at(d, p + 8, 4) <= 255
}

impl Meta {
    /// The fields that all versions share.
    pub open spec fn inner(&self) -> (u32, bool, u8, u32, bool) {
        (
            self.checksum_interval,
            self.is_multiplayer,
            self.local_player_id@,
            self.header_position,
            self.use_sequence_numbers,
        )
    }

    /// Read the chunk of recorded game body metadata that's the same across all versions.
    fn read_from_inner(input: &[u8], pos: usize) -> (r: Result<(Self, usize), ReadError>)
        requires
            meta_readable(input@, pos as int),
        ensures
            match meta_inner_at(input@, pos as int) {
                Some(fields) => r matches Ok((m, p)) && m.inner() == fields && m.num_chapters is None
                    && p == pos + 20,
                None => r == Err::<(Self, usize), ReadError>(ReadError::UnexpectedEof),
            },
    {
        let (checksum_interval, p) = read_u32_le(input, pos)?;
        let (is_multiplayer, p) = read_u32_le(input, p)?;
        let (local_player, p) = read_u32_le(input, p)?;
        let local_player_id = match PlayerID::try_from(local_player) {
            Ok(id) => id,
            Err(_) => {
                assert(false);
                return Err(ReadError::InvalidData);
            },
        };
        let (header_position, p) = read_u32_le(input, p)?;
        let (use_sequence_numbers, p) = read_u32_le(input, p)?;
        Ok((
            Meta {
                checksum_interval,
                is_multiplayer: is_multiplayer != 0,
                use_sequence_numbers: use_sequence_numbers != 0,
                local_player_id,
                header_position,
                num_chapters: None,
            },
            p,
        ))
    }

    /// Read recorded game body metadata in the `mgl` format used by Age of Empires 2: The
    /// Age Of Kings: the shared fields, the size of the game's executable and two unknown
    /// numbers.
    pub fn read_from_mgl(input: &[u8], pos: usize) -> (r: Result<(Self, usize), ReadError>)
        requires
            meta_readable(input@, pos as int),
        ensures
            r is Ok <==> pos + 36 <= input.len(),
            r matches Ok((m, p)) ==> meta_inner_at(input@, pos as int) == Some(m.inner())
                && m.num_chapters is None && p == pos + 36,
            r matches Err(e) ==> e == ReadError::UnexpectedEof,
    {
        let (meta, p) = Meta::read_from_inner(input, pos)?;
        let p = skip(input, p, 16)?;
        Ok((meta, p))
    }

    /// Read recorded game body metadata in the `mgx` format used by Age of Empires 2: The
    /// Conquerors and all subsequent versions: the shared fields and the number of chapters.
    pub fn read_from_mgx(input: &[u8], pos: usize) -> (r: Result<(Self, usize), ReadError>)
        requires
            meta_readable(input@, pos as int),
        ensures
            r is Ok <==> pos + 24 <= input.len(),
            r matches Ok((m, p)) ==> meta_inner_at(input@, pos as int) == Some(m.inner())
                && m.num_chapters == Some(le_at(input@, pos + 20, 4) as u32) && p == pos + 24,
            r matches Err(e) ==> e == ReadError::UnexpectedEof,
    {
        let (mut meta, p) = Meta::read_from_inner(input, pos)?;
        let (num_chapters, p) = read_u32_le(input, p)?;
        meta.num_chapters = Some(num_chapters);
        Ok((meta, p))
    }
}

/// A chat message sent during the game.
#[derive(Debug, Clone)]
pub struct Chat {
    message: String,
}

impl View for Chat {
    /// The text of the message.
    type V = Seq<char>;

    closed spec fn view(&self) -> Seq<char> {
        self.message@
    }
}

/// The bytes of the chat message at `p`, without a final NUL, and the position after it.
pub open spec fn chat_at(d: Seq<u8>, p: int) -> Option<(Seq<u8>, int)> {
    if p + 8 > d.len() {
        None
    } else {
        let n = le_at(d, p + 4, 4);
        if p + 8 + n > d.len() {
            None
        } else {
            let b = d.subrange(p + 8, p + 8 + n);
            if b.len() > 0 && b.last() == 0 {
                Some((b.drop_last(), p + 8 + n))
            } else {
                Some((b, p + 8 + n))
            }
        }
    }
}

/// The chat message at `p` starts with the marker `-1` and its text is UTF-8.
pub open spec fn chat_readable(d: Seq<u8>, p: int) -> bool {
    &&& p + 4 <= d.len() ==> signed_of(le_at(d, p, 4), 4) == -1
    &&& chat_at(d, p) matches Some((b, _)) ==> vstd::utf8::valid_utf8(b)
}

impl Chat {
    /// Read a chat message.
    pub fn read_from(input: &[u8], pos: usize) -> (r: Result<(Self, usize), ReadError>)
        requires
            chat_readable(input@, pos as int),
        ensures
            match chat_at(input@, pos as int) {
                Some((b, q)) => r matches Ok((c, p)) && c@ == vstd::utf8::decode_utf8(b) && p == q,
                None => r == Err::<(Self, usize), ReadError>(ReadError::UnexpectedEof),
            },
    {
        let (marker, p) = read_i32_le(input, pos)?;
        assert(marker == -1);
        let (length, p) = read_u32_le(input, p)?;
        let (mut bytes, p) = read_bytes(input, p, length as usize)?;
        let n = bytes.len();
        if n > 0 && bytes[n - 1] == 0 {
            bytes.pop();
        }
        let message = match decode_utf8_text(bytes.as_slice()) {
            Some(text) => text.to_owned(),
            None => {
                assert(false);
                return Err(ReadError::InvalidData);
            },
        };
        Ok((Chat { message }, p))
    }
}

} // verus!
