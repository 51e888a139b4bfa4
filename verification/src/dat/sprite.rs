//! Sprite records of a data file: sounds attached to sprites and sprite deltas.
use crate::codec::{
    i16_at, i16_bytes, i32_bytes, lemma_field_lens, lemma_i16_field, lemma_opt_u16_field,
    lemma_u16_field, opt_u16_at, opt_u16_bytes, put_i16_le, put_i32_le, put_opt_u16, put_u16_le,
    read_i16_le, read_i32_le, read_opt_u16, read_u16_le, u16_at, u16_bytes, ReadError,
};
use crate::dat::ids::{SoundID, SpriteID};
use arrayvec::ArrayVec;
use vstd::prelude::*;

verus! {

/// A sound played with a sprite, after a delay.
#[derive(Debug, Default, Clone, Copy)]
pub struct SoundProp {
    pub sound_delay: i16,
    pub sound_id: SoundID,
}

impl View for SoundProp {
    type V = (i16, u16);

    open spec fn view(&self) -> (i16, u16) {
        (self.sound_delay, self.sound_id@)
    }
}

/// The sound stored at `pos`: its delay and its sound ID.
pub open spec fn sound_prop_at(data: Seq<u8>, pos: int) -> (i16, u16) {
    (i16_at(data, pos), u16_at(data, pos + 2))
}

/// The four bytes a sound is stored as.
pub open spec fn sound_prop_bytes(p: (i16, u16)) -> Seq<u8> {
    i16_bytes(p.0) + u16_bytes(p.1)
}

/// The four bytes that stand for "no sound": a zero delay and the sound ID `0xFFFF`.
pub open spec fn empty_sound_prop_bytes() -> Seq<u8> {
    u16_bytes(0) + u16_bytes(0xFFFF)
}

impl SoundProp {
    /// Read a sound at `pos`; returns it and the position after it.
    pub fn read_from(input: &[u8], pos: usize) -> (r: Result<(Self, usize), ReadError>)
        ensures
            r is Ok <==> pos + 4 <= input.len(),
            r matches Ok((s, p)) ==> s@ == sound_prop_at(input@, pos as int) && p == pos + 4,
            r matches Err(e) ==> e == ReadError::UnexpectedEof,
    {
        let (sound_delay, p) = read_i16_le(input, pos)?;
        let (sound_id, p) = read_u16_le(input, p)?;
        Ok((SoundProp { sound_delay, sound_id: SoundID::from(sound_id) }, p))
    }

    /// Append this sound to `output`.
    pub fn write_to(self, output: &mut Vec<u8>)
        ensures
            final(output)@ == old(output)@ + sound_prop_bytes(self@),
    {
        put_i16_le(output, self.sound_delay);
        put_u16_le(output, u16::from(self.sound_id));
        assert(output@ =~= old(output)@ + sound_prop_bytes(self@));
    }

    /// Append the bytes that stand for "no sound" to `output`.
    pub fn write_empty(output: &mut Vec<u8>)
        ensures
            final(output)@ == old(output)@ + empty_sound_prop_bytes(),
    {
        put_u16_le(output, 0);
        put_u16_le(output, 0xFFFF);
        assert(output@ =~= old(output)@ + empty_sound_prop_bytes());
    }
}

/// A sound that is written reads back unchanged, wherever it stands.
pub proof fn law_sound_prop_read_of_write(prefix: Seq<u8>, s: (i16, u16), suffix: Seq<u8>)
    ensures
        sound_prop_bytes(s).len() == 4,
        sound_prop_at(prefix + sound_prop_bytes(s) + suffix, prefix.len() as int) == s,
{
    lemma_field_lens();
    let data = prefix + sound_prop_bytes(s) + suffix;
    let p = prefix.len() as int;
    assert(data.subrange(p, p + 2) =~= i16_bytes(s.0));
    assert(data.subrange(p + 2, p + 4) =~= u16_bytes(s.1));
    lemma_i16_field(data, p, s.0);
    lemma_u16_field(data, p + 2, s.1);
}

/// The sounds held by a sprite's attack sound list, in order.
pub uninterp spec fn held_sounds(v: ArrayVec<SoundProp, 3>) -> Seq<(i16, u16)>;

/// `ArrayVec::new`: an empty list.
#[verifier::external_body]
fn props_new() -> (v: ArrayVec<SoundProp, 3>)
    ensures
        held_sounds(v) == Seq::<(i16, u16)>::empty(),
{
    ArrayVec::new()
}

/// `ArrayVec::push`: appends a sound; it panics on a full list, which `requires` rules out.
#[verifier::external_body]
fn props_push(v: &mut ArrayVec<SoundProp, 3>, p: SoundProp)
    requires
        held_sounds(*old(v)).len() < 3,
    ensures
        held_sounds(*final(v)) == held_sounds(*old(v)).push(p@),
{
    v.push(p)
}

/// `ArrayVec::len`: the number of sounds, never more than the capacity of 3.
#[verifier::external_body]
fn props_len(v: &ArrayVec<SoundProp, 3>) -> (n: usize)
    ensures
        n == held_sounds(*v).len(),
        n <= 3,
{
    v.len()
}

/// `ArrayVec::as_slice` indexed at `i`: the sound at that place.
#[verifier::external_body]
fn props_get(v: &ArrayVec<SoundProp, 3>, i: usize) -> (p: SoundProp)
    requires
        i < held_sounds(*v).len(),
    ensures
        p@ == held_sounds(*v)[i as int],
{
    v.as_slice()[i]
}

/// The sounds played with an attack sprite: up to three.
#[derive(Debug, Default, Clone)]
pub struct SpriteAttackSound {
    pub sound_props: ArrayVec<SoundProp, 3>,
}

/// The sounds of `s` whose ID is not `0xFFFF`, in order.
pub open spec fn kept_sounds(s: Seq<(i16, u16)>) -> Seq<(i16, u16)>
    decreases s.len(),
{
    if s.len() == 0 {
        s
    } else if s.last().1 != 0xFFFF {
        kept_sounds(s.drop_last()).push(s.last())
    } else {
        kept_sounds(s.drop_last())
    }
}

/// The three sounds stored at `pos`.
pub open spec fn stored_sounds(data: Seq<u8>, pos: int) -> Seq<(i16, u16)> {
    seq![sound_prop_at(data, pos), sound_prop_at(data, pos + 4), sound_prop_at(data, pos + 8)]
}

/// The bytes of place `i` of a list of sounds: the sound there, or "no sound".
pub open spec fn sound_slot_bytes(s: Seq<(i16, u16)>, i: int) -> Seq<u8> {
    if i < s.len() {
        sound_prop_bytes(s[i])
    } else {
        empty_sound_prop_bytes()
    }
}

/// The twelve bytes a list of up to three sounds is stored as: each sound, then "no sound"
/// for each place left over.
pub open spec fn attack_sounds_bytes(s: Seq<(i16, u16)>) -> Seq<u8> {
    sound_slot_bytes(s, 0) + sound_slot_bytes(s, 1) + sound_slot_bytes(s, 2)
}

impl SpriteAttackSound {
    /// Read the three sounds stored at `pos`, keeping those whose ID is not `0xFFFF`; returns
    /// them and the position after them.
    pub fn read_from(input: &[u8], pos: usize) -> (r: Result<(Self, usize), ReadError>)
        ensures
            r is Ok <==> pos + 12 <= input.len(),
            r matches Ok((s, p)) ==> held_sounds(s.sound_props) == kept_sounds(
                stored_sounds(input@, pos as int),
            ) && p == pos + 12,
            r matches Err(e) ==> e == ReadError::UnexpectedEof,
    {
        let mut sound_props = props_new();
        let mut p = pos;
        let mut i: usize = 0;
        let ghost all = stored_sounds(input@, pos as int);
        assert(all.take(0) =~= Seq::<(i16, u16)>::empty());
        while i < 3
            invariant
                i <= 3,
                p == pos + 4 * i,
                i > 0 ==> p <= input.len(),
                all == stored_sounds(input@, pos as int),
                held_sounds(sound_props) == kept_sounds(all.take(i as int)),
                held_sounds(sound_props).len() <= i,
            decreases 3 - i,
        {
            let (prop, q) = SoundProp::read_from(input, p)?;
            proof {
                assert(all.take(i + 1).drop_last() =~= all.take(i as int));
                assert(all.take(i + 1).last() == all[i as int]);
                assert(all[i as int] == sound_prop_at(input@, pos + 4 * i));
            }
            if u16::from(prop.sound_id) != 0xFFFF {
                props_push(&mut sound_props, prop);
            }
            p = q;
            i = i + 1;
        }
        assert(all.take(3) =~= all);
        Ok((SpriteAttackSound { sound_props }, p))
    }

    /// Append the three places of this list: each sound, then "no sound" for each place
    /// left over.
    pub fn write_to(&self, output: &mut Vec<u8>)
        ensures
            final(output)@ == old(output)@ + attack_sounds_bytes(held_sounds(self.sound_props)),
    {
        let ghost s = held_sounds(self.sound_props);
        let n = props_len(&self.sound_props);
        let mut index: usize = 0;
        while index < 3
            invariant
                index <= 3,
                n == s.len(),
                n <= 3,
                s == held_sounds(self.sound_props),
                output@ == old(output)@ + (if index == 0 {
                    Seq::empty()
                } else if index == 1 {
                    sound_slot_bytes(s, 0)
                } else if index == 2 {
                    sound_slot_bytes(s, 0) + sound_slot_bytes(s, 1)
                } else {
                    attack_sounds_bytes(s)
                }),
            decreases 3 - index,
        {
            if index < n {
                props_get(&self.sound_props, index).write_to(output);
            } else {
                SoundProp::write_empty(output);
            }
            index = index + 1;
            assert(output@ =~= old(output)@ + (if index == 1 {
                sound_slot_bytes(s, 0)
            } else if index == 2 {
                sound_slot_bytes(s, 0) + sound_slot_bytes(s, 1)
            } else {
                attack_sounds_bytes(s)
            }));
        }
    }
}

/// A list of up to three sounds that is written reads back unchanged, wherever it stands,
/// so long as none of its sounds has the ID `0xFFFF`, which stands for "no sound".
pub proof fn law_attack_sounds_read_of_write(prefix: Seq<u8>, s: Seq<(i16, u16)>, suffix: Seq<u8>)
    requires
        s.len() <= 3,
        forall|i: int| 0 <= i < s.len() ==> (#[trigger] s[i]).1 != 0xFFFF,
    ensures
        attack_sounds_bytes(s).len() == 12,
        kept_sounds(stored_sounds(prefix + attack_sounds_bytes(s) + suffix, prefix.len() as int))
            == s,
{
    lemma_field_lens();
    let data = prefix + attack_sounds_bytes(s) + suffix;
    let p = prefix.len() as int;
    let e: (i16, u16) = (0, 0xFFFF);
    law_sound_prop_read_of_write(Seq::empty(), e, Seq::empty());
    assert(sound_prop_bytes(e) =~= empty_sound_prop_bytes()) by {
        assert(i16_bytes(0) == u16_bytes(0)) by {
            crate::codec::lemma_pow256_values();
        }
    }
    let slot = |i: int| if i < s.len() { s[i] } else { e };
    assert forall|i: int| 0 <= i < 3 implies #[trigger] sound_slot_bytes(s, i) == sound_prop_bytes(
        slot(i),
    ) by {}
    let st = stored_sounds(data, p);
    assert forall|i: int| 0 <= i < 3 implies #[trigger] st[i] == slot(i) by {
        let pre = prefix + attack_sounds_bytes(s).take(4 * i);
        let suf = attack_sounds_bytes(s).skip(4 * i + 4) + suffix;
        assert(data =~= pre + sound_prop_bytes(slot(i)) + suf);
        law_sound_prop_read_of_write(pre, slot(i), suf);
    }
    assert(st[0] == slot(0));
    assert(st[1] == slot(1));
    assert(st[2] == slot(2));
    let k0 = st.take(0);
    let k1 = st.take(1);
    let k2 = st.take(2);
    assert(k0 =~= Seq::<(i16, u16)>::empty());
    assert(k1.drop_last() =~= k0 && k1.last() == st[0]);
    assert(k2.drop_last() =~= k1 && k2.last() == st[1]);
    assert(st.drop_last() =~= k2 && st.last() == st[2]);
    assert(kept_sounds(k0) =~= Seq::<(i16, u16)>::empty());
    if s.len() == 0 {
        assert(kept_sounds(k1) =~= s);
        assert(kept_sounds(k2) =~= s);
        assert(kept_sounds(st) =~= s);
    } else if s.len() == 1 {
        assert(kept_sounds(k1) =~= seq![s[0]]);
        assert(kept_sounds(k2) =~= seq![s[0]]);
        assert(kept_sounds(st) =~= s);
    } else if s.len() == 2 {
        assert(kept_sounds(k1) =~= seq![s[0]]);
        assert(kept_sounds(k2) =~= seq![s[0], s[1]]);
        assert(kept_sounds(st) =~= s);
    } else {
        assert(kept_sounds(k1) =~= seq![s[0]]);
        assert(kept_sounds(k2) =~= seq![s[0], s[1]]);
        assert(kept_sounds(st) =~= s);
    }

}


/// A sprite drawn as part of another sprite, at an offset.
#[derive(Debug, Default, Clone)]
pub struct SpriteDelta {
    pub sprite_id: Option<SpriteID>,
    pub offset_x: i16,
    pub offset_y: i16,
    pub display_angle: i16,
}

/// The sprite ID of an optional sprite, as it is stored.
pub open spec fn opt_sprite_view(s: Option<SpriteID>) -> Option<u16> {
    match s {
        Some(id) => Some(id@),
        None => None,
    }
}

impl View for SpriteDelta {
    type V = (Option<u16>, i16, i16, i16);

    open spec fn view(&self) -> (Option<u16>, i16, i16, i16) {
        (opt_sprite_view(self.sprite_id), self.offset_x, self.offset_y, self.display_angle)
    }
}

/// The sprite delta stored at `pos`: the sprite (`0xFFFF` for none), two bytes of padding,
/// the four bytes of a pointer that the game sets when it loads, the offsets, the angle and
/// two more bytes of padding.
pub open spec fn sprite_delta_at(data: Seq<u8>, pos: int) -> (Option<u16>, i16, i16, i16) {
    (opt_u16_at(data, pos), i16_at(data, pos + 8), i16_at(data, pos + 10), i16_at(data, pos + 12))
}

/// The sixteen bytes a sprite delta is stored as; the padding and the pointer are zero.
pub open spec fn sprite_delta_bytes(d: (Option<u16>, i16, i16, i16)) -> Seq<u8> {
    opt_u16_bytes(d.0) + i16_bytes(0) + i32_bytes(0) + i16_bytes(d.1) + i16_bytes(d.2) + i16_bytes(
        d.3,
    ) + i16_bytes(0)
}

impl SpriteDelta {
    /// Read a sprite delta at `pos`; returns it and the position after it.
    pub fn read_from(input: &[u8], pos: usize) -> (r: Result<(Self, usize), ReadError>)
        ensures
            r is Ok <==> pos + 16 <= input.len(),
            r matches Ok((d, p)) ==> d@ == sprite_delta_at(input@, pos as int) && p == pos + 16,
            r matches Err(e) ==> e == ReadError::UnexpectedEof,
    {
        let (sprite, p) = read_opt_u16(input, pos)?;
        let (_padding, p) = read_i16_le(input, p)?;
        let (_parent_sprite_pointer, p) = read_i32_le(input, p)?;
        let (offset_x, p) = read_i16_le(input, p)?;
        let (offset_y, p) = read_i16_le(input, p)?;
        let (display_angle, p) = read_i16_le(input, p)?;
        let (_padding, p) = read_i16_le(input, p)?;
        let sprite_id = match sprite {
            Some(n) => Some(SpriteID::from(n)),
            None => None,
        };
        Ok((SpriteDelta { sprite_id, offset_x, offset_y, display_angle }, p))
    }

    /// Append this sprite delta to `output`, with zero padding and a zero pointer.
    pub fn write_to(&self, output: &mut Vec<u8>)
        ensures
            final(output)@ == old(output)@ + sprite_delta_bytes(self@),
    {
        let sprite = match self.sprite_id {
            Some(id) => Some(u16::from(id)),
            None => None,
        };
        put_opt_u16(output, sprite);
        put_i16_le(output, 0);
        put_i32_le(output, 0);
        put_i16_le(output, self.offset_x);
        put_i16_le(output, self.offset_y);
        put_i16_le(output, self.display_angle);
        put_i16_le(output, 0);
        assert(output@ =~= old(output)@ + sprite_delta_bytes(self@));
    }
}

/// A sprite delta that is written reads back unchanged, wherever it stands, unless its sprite
/// ID is `0xFFFF`, which reads back as no sprite.
pub proof fn law_sprite_delta_read_of_write(
    prefix: Seq<u8>,
    d: (Option<u16>, i16, i16, i16),
    suffix: Seq<u8>,
)
    requires
        d.0 != Some(0xFFFFu16),
    ensures
        sprite_delta_bytes(d).len() == 16,
        sprite_delta_at(prefix + sprite_delta_bytes(d) + suffix, prefix.len() as int) == d,
{
    lemma_field_lens();
    assert(opt_u16_bytes(d.0).len() == 2);
    let data = prefix + sprite_delta_bytes(d) + suffix;
    let p = prefix.len() as int;
    assert(data.subrange(p, p + 2) =~= opt_u16_bytes(d.0));
    assert(data.subrange(p + 8, p + 10) =~= i16_bytes(d.1));
    assert(data.subrange(p + 10, p + 12) =~= i16_bytes(d.2));
    assert(data.subrange(p + 12, p + 14) =~= i16_bytes(d.3));
    lemma_opt_u16_field(data, p, d.0);
    lemma_i16_field(data, p + 8, d.1);
    lemma_i16_field(data, p + 10, d.2);
    lemma_i16_field(data, p + 12, d.3);
}

} // verus!
