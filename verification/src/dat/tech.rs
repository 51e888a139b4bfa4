//! Technologies (researches) of a data file.
use crate::codec::{
    bytes_until_nul, lemma_field_lens, lemma_opt_u16_field, lemma_opt_u32_field,
    lemma_pow256_values, lemma_u16_field, lemma_u32_field, opt_u16_at, opt_u16_bytes, opt_u32_at,
    opt_u32_bytes, push_bytes, put_i16_le, put_opt_u16, put_opt_u32, put_u16_le, put_u32_le,
    read_bytes, read_opt_u16, read_opt_u32, read_u16_le, read_u32_le, read_u8, u16_at, u16_bytes,
    u32_at, u32_bytes, until_nul, ReadError,
};
use crate::dat::ids::{CivilizationID, TechID, UnitTypeID};
use crate::lang::encoding::{
    decode_windows_1252_bytes, encode_windows_1252, windows_1252_decode, windows_1252_encode,
};
use crate::lang::string_key::{KeyView, StringKey};
use arrayvec::ArrayVec;
use vstd::prelude::*;

verus! {

/// A reference from a tech to one of its effects.
#[derive(Debug, Default, Clone, Copy)]
pub struct TechEffectRef {
    pub effect_type: u16,
    pub amount: u16,
    pub enabled: bool,
}

impl View for TechEffectRef {
    type V = (u16, u16, bool);

    open spec fn view(&self) -> (u16, u16, bool) {
        (self.effect_type, self.amount, self.enabled)
    }
}

/// The effect reference stored at `pos`: type, amount, and a byte that is not zero when the
/// effect is enabled.
pub open spec fn effect_ref_at(data: Seq<u8>, pos: int) -> (u16, u16, bool) {
    (u16_at(data, pos), u16_at(data, pos + 2), data[pos + 4] != 0)
}

/// The five bytes an effect reference is stored as.
pub open spec fn effect_ref_bytes(e: (u16, u16, bool)) -> Seq<u8> {
    u16_bytes(e.0) + u16_bytes(e.1) + seq![if e.2 { 1u8 } else { 0u8 }]
}

impl TechEffectRef {
    /// Read an effect reference at `pos`; returns it and the position after it.
    pub fn read_from(input: &[u8], pos: usize) -> (r: Result<(Self, usize), ReadError>)
        ensures
            r is Ok <==> pos + 5 <= input.len(),
            r matches Ok((e, p)) ==> e@ == effect_ref_at(input@, pos as int) && p == pos + 5,
            r matches Err(e) ==> e == ReadError::UnexpectedEof,
    {
        let (effect_type, p) = read_u16_le(input, pos)?;
        let (amount, p) = read_u16_le(input, p)?;
        let (enabled, p) = read_u8(input, p)?;
        Ok((TechEffectRef { effect_type, amount, enabled: enabled != 0 }, p))
    }

    /// Append this effect reference to `output`.
    pub fn write_to(self, output: &mut Vec<u8>)
        ensures
            final(output)@ == old(output)@ + effect_ref_bytes(self@),
    {
        put_u16_le(output, self.effect_type);
        put_u16_le(output, self.amount);
        output.push(if self.enabled { 1u8 } else { 0u8 });
        assert(output@ =~= old(output)@ + effect_ref_bytes(self@));
    }
}

/// An effect reference that is written reads back unchanged, wherever it stands.
pub proof fn law_effect_ref_read_of_write(prefix: Seq<u8>, e: (u16, u16, bool), suffix: Seq<u8>)
    ensures
        effect_ref_bytes(e).len() == 5,
        effect_ref_at(prefix + effect_ref_bytes(e) + suffix, prefix.len() as int) == e,
{
    lemma_field_lens();
    let data = prefix + effect_ref_bytes(e) + suffix;
    let p = prefix.len() as int;
    assert(data.subrange(p, p + 2) =~= u16_bytes(e.0));
    assert(data.subrange(p + 2, p + 4) =~= u16_bytes(e.1));
    lemma_u16_field(data, p, e.0);
    lemma_u16_field(data, p + 2, e.1);
    assert(data[p + 4] == (if e.2 { 1u8 } else { 0u8 }));
}

/// The techs required by a tech, in order.
pub uninterp spec fn held_tech_ids(v: ArrayVec<TechID, 6>) -> Seq<u16>;

/// The effects of a tech, in order.
pub uninterp spec fn held_effect_refs(v: ArrayVec<TechEffectRef, 3>) -> Seq<(u16, u16, bool)>;

/// `ArrayVec::new`: an empty list of techs.
#[verifier::external_body]
fn tech_ids_new() -> (v: ArrayVec<TechID, 6>)
    ensures
        held_tech_ids(v) == Seq::<u16>::empty(),
{
    ArrayVec::new()
}

/// `ArrayVec::push`: appends a tech; it panics on a full list, which `requires` rules out.
#[verifier::external_body]
fn tech_ids_push(v: &mut ArrayVec<TechID, 6>, id: TechID)
    requires
        held_tech_ids(*old(v)).len() < 6,
    ensures
        held_tech_ids(*final(v)) == held_tech_ids(*old(v)).push(id@),
{
    v.push(id)
}

/// `ArrayVec::len`: the number of techs, never more than the capacity of 6.
#[verifier::external_body]
fn tech_ids_len(v: &ArrayVec<TechID, 6>) -> (n: usize)
    ensures
        n == held_tech_ids(*v).len(),
        n <= 6,
{
    v.len()
}

/// `ArrayVec::as_slice` indexed at `i`: the tech at that place.
#[verifier::external_body]
fn tech_ids_get(v: &ArrayVec<TechID, 6>, i: usize) -> (id: TechID)
    requires
        i < held_tech_ids(*v).len(),
    ensures
        id@ == held_tech_ids(*v)[i as int],
{
    v.as_slice()[i]
}

/// `ArrayVec::new`: an empty list of effects.
#[verifier::external_body]
fn effect_refs_new() -> (v: ArrayVec<TechEffectRef, 3>)
    ensures
        held_effect_refs(v) == Seq::<(u16, u16, bool)>::empty(),
{
    ArrayVec::new()
}

/// `ArrayVec::push`: appends an effect; it panics on a full list, which `requires` rules out.
#[verifier::external_body]
fn effect_refs_push(v: &mut ArrayVec<TechEffectRef, 3>, e: TechEffectRef)
    requires
        held_effect_refs(*old(v)).len() < 3,
    ensures
        held_effect_refs(*final(v)) == held_effect_refs(*old(v)).push(e@),
{
    v.push(e)
}

/// `ArrayVec::len`: the number of effects, never more than the capacity of 3.
#[verifier::external_body]
fn effect_refs_len(v: &ArrayVec<TechEffectRef, 3>) -> (n: usize)
    ensures
        n == held_effect_refs(*v).len(),
        n <= 3,
{
    v.len()
}

/// `ArrayVec::as_slice` indexed at `i`: the effect at that place.
#[verifier::external_body]
fn effect_refs_get(v: &ArrayVec<TechEffectRef, 3>, i: usize) -> (e: TechEffectRef)
    requires
        i < held_effect_refs(*v).len(),
    ensures
        e@ == held_effect_refs(*v)[i as int],
{
    v.as_slice()[i]
}

/// A technology (a research).
#[derive(Debug, Default, Clone)]
pub struct Tech {
    required_techs: ArrayVec<TechID, 6>,
    effects: ArrayVec<TechEffectRef, 3>,
    civilization_id: Option<CivilizationID>,
    full_tech_mode: u16,
    location: Option<UnitTypeID>,
    language_dll_name: Option<StringKey>,
    language_dll_description: Option<StringKey>,
    time: u16,
    time2: u16,
    type_: u16,
    icon_id: Option<u16>,
    button_id: u8,
    language_dll_help: Option<StringKey>,
    help_page_id: u32,
    hotkey: Option<u32>,
    name: String,
}

/// The abstract value of a [`Tech`].
pub ghost struct TechView {
    pub required_techs: Seq<u16>,
    pub effects: Seq<(u16, u16, bool)>,
    pub civilization_id: Option<u16>,
    pub full_tech_mode: u16,
    pub location: Option<u16>,
    pub language_dll_name: Option<KeyView>,
    pub language_dll_description: Option<KeyView>,
    pub time: u16,
    pub time2: u16,
    pub type_: u16,
    pub icon_id: Option<u16>,
    pub button_id: u8,
    pub language_dll_help: Option<KeyView>,
    pub help_page_id: u32,
    pub hotkey: Option<u32>,
    pub name: Seq<char>,
}

/// The view of an optional ID.
pub open spec fn opt_view<T: View>(o: Option<T>) -> Option<T::V> {
    match o {
        Some(v) => Some(v@),
        None => None,
    }
}

impl View for Tech {
    type V = TechView;

    closed spec fn view(&self) -> TechView {
        TechView {
            required_techs: held_tech_ids(self.required_techs),
            effects: held_effect_refs(self.effects),
            civilization_id: opt_view(self.civilization_id),
            full_tech_mode: self.full_tech_mode,
            location: opt_view(self.location),
            language_dll_name: opt_view(self.language_dll_name),
            language_dll_description: opt_view(self.language_dll_description),
            time: self.time,
            time2: self.time2,
            type_: self.type_,
            icon_id: self.icon_id,
            button_id: self.button_id,
            language_dll_help: opt_view(self.language_dll_help),
            help_page_id: self.help_page_id,
            hotkey: self.hotkey,
            name: self.name@,
        }
    }
}

/// The techs kept of those stored: the places that hold one.
pub open spec fn kept_ids(s: Seq<Option<u16>>) -> Seq<u16>
    decreases s.len(),
{
    if s.len() == 0 {
        Seq::empty()
    } else {
        match s.last() {
            Some(id) => kept_ids(s.drop_last()).push(id),
            None => kept_ids(s.drop_last()),
        }
    }
}

/// The effects kept of those stored: those whose type is not `0xFFFF`.
pub open spec fn kept_effects(s: Seq<(u16, u16, bool)>) -> Seq<(u16, u16, bool)>
    decreases s.len(),
{
    if s.len() == 0 {
        s
    } else if s.last().0 != 0xFFFF {
        kept_effects(s.drop_last()).push(s.last())
    } else {
        kept_effects(s.drop_last())
    }
}

/// Place `i` of the places for required techs that start at `pos`.
pub open spec fn id_slot_at(data: Seq<u8>, pos: int, i: int) -> Option<u16> {
    opt_u16_at(data, pos + 2 * i)
}

/// Place `i` of the places for effects that start at `pos`.
pub open spec fn effect_slot_at(data: Seq<u8>, pos: int, i: int) -> (u16, u16, bool) {
    effect_ref_at(data, pos + 5 * i)
}

/// The six places for required techs stored at `pos`.
pub open spec fn stored_tech_ids(data: Seq<u8>, pos: int) -> Seq<Option<u16>> {
    Seq::new(6, |i: int| id_slot_at(data, pos, i))
}

/// The three places for effects stored after the required techs of the tech at `pos`.
pub open spec fn stored_effects(data: Seq<u8>, pos: int) -> Seq<(u16, u16, bool)> {
    Seq::new(3, |i: int| effect_slot_at(data, pos + 12, i))
}

/// A string key stored as an optional `u16`.
pub open spec fn key16(o: Option<u16>) -> Option<KeyView> {
    match o {
        Some(n) => Some(KeyView::Num(n as u32)),
        None => None,
    }
}

/// A string key stored as an optional `u32`.
pub open spec fn key32(o: Option<u32>) -> Option<KeyView> {
    match o {
        Some(n) => Some(KeyView::Num(n)),
        None => None,
    }
}

/// The length of the name of the tech stored at `pos`.
pub open spec fn tech_name_len(data: Seq<u8>, pos: int) -> int {
    u16_at(data, pos + 60) as int
}

/// Whether a whole tech is stored at `pos`: 62 bytes of fields, then its name.
pub open spec fn tech_readable(data: Seq<u8>, pos: int) -> bool {
    pos + 62 <= data.len() && pos + 62 + tech_name_len(data, pos) <= data.len()
}

/// The position after the tech stored at `pos`.
pub open spec fn tech_end(data: Seq<u8>, pos: int) -> int {
    pos + 62 + tech_name_len(data, pos)
}

/// The tech stored at `pos`. The name is decoded from Windows-1252, up to its first NUL.
pub open spec fn tech_at(data: Seq<u8>, pos: int) -> TechView {
    TechView {
        required_techs: kept_ids(stored_tech_ids(data, pos)),
        effects: kept_effects(stored_effects(data, pos)),
        civilization_id: opt_u16_at(data, pos + 29),
        full_tech_mode: u16_at(data, pos + 31),
        location: opt_u16_at(data, pos + 33),
        language_dll_name: key16(opt_u16_at(data, pos + 35)),
        language_dll_description: key16(opt_u16_at(data, pos + 37)),
        time: u16_at(data, pos + 39),
        time2: u16_at(data, pos + 41),
        type_: u16_at(data, pos + 43),
        icon_id: opt_u16_at(data, pos + 45),
        button_id: data[pos + 47],
        language_dll_help: key32(opt_u32_at(data, pos + 48)),
        help_page_id: u32_at(data, pos + 52),
        hotkey: opt_u32_at(data, pos + 56),
        name: windows_1252_decode(
            until_nul(data.subrange(pos + 62, pos + 62 + tech_name_len(data, pos))),
        ),
    }
}

/// The bytes of the first `n` places for required techs: each tech, then `0xFFFF`.
pub open spec fn id_slots(s: Seq<u16>, n: nat) -> Seq<u8>
    decreases n,
{
    if n == 0 {
        Seq::empty()
    } else {
        id_slots(s, (n - 1) as nat) + (if n - 1 < s.len() {
            u16_bytes(s[n - 1])
        } else {
            u16_bytes(0xFFFF)
        })
    }
}

/// The bytes of the first `n` places for effects: each effect, then an effect of type
/// `0xFFFF`.
pub open spec fn effect_slots(s: Seq<(u16, u16, bool)>, n: nat) -> Seq<u8>
    decreases n,
{
    if n == 0 {
        Seq::empty()
    } else {
        effect_slots(s, (n - 1) as nat) + effect_ref_bytes(
            if n - 1 < s.len() {
                s[n - 1]
            } else {
                (0xFFFFu16, 0u16, false)
            },
        )
    }
}

/// A string key as it is stored in two bytes: a number cut to 16 bits, or `0xFFFF`.
pub open spec fn key16_bytes(k: Option<KeyView>) -> Seq<u8> {
    match k {
        Some(KeyView::Num(n)) => u16_bytes(n as u16),
        _ => u16_bytes(0xFFFF),
    }
}

/// A string key as it is stored in four bytes: a number, or `0xFFFF_FFFF`.
pub open spec fn key32_bytes(k: Option<KeyView>) -> Seq<u8> {
    match k {
        Some(KeyView::Num(n)) => u32_bytes(n),
        _ => u32_bytes(0xFFFF_FFFF),
    }
}

/// Whether a string key can be stored in a data file: it is none or a number.
pub open spec fn storable_key(k: Option<KeyView>) -> bool {
    !(k matches Some(KeyView::Name(_)))
}

/// The bytes of the places for required techs and effects of a tech.
pub open spec fn tech_slots_bytes(t: TechView) -> Seq<u8> {
    id_slots(t.required_techs, 6) + effect_slots(t.effects, 3)
}

/// The bytes of the first fixed fields of a tech, after its places for techs and effects:
/// the number of required techs, the civilization, the mode, the location and the string
/// keys of its name and description.
pub open spec fn tech_ids_bytes(t: TechView) -> Seq<u8> {
    u16_bytes(t.required_techs.len() as u16) + opt_u16_bytes(t.civilization_id) + u16_bytes(
        t.full_tech_mode,
    ) + opt_u16_bytes(t.location) + key16_bytes(t.language_dll_name) + key16_bytes(
        t.language_dll_description,
    )
}

/// The bytes of the other fixed fields of a tech: times, type, icon, button, help and
/// hotkey.
pub open spec fn tech_misc_bytes(t: TechView) -> Seq<u8> {
    u16_bytes(t.time) + u16_bytes(t.time2) + u16_bytes(t.type_) + opt_u16_bytes(t.icon_id)
        + seq![t.button_id] + key32_bytes(t.language_dll_help) + u32_bytes(t.help_page_id)
        + opt_u32_bytes(t.hotkey)
}

/// The bytes of the fixed fields of a tech, after its places for techs and effects.
pub open spec fn tech_fields_bytes(t: TechView) -> Seq<u8> {
    tech_ids_bytes(t) + tech_misc_bytes(t)
}

/// The bytes of the name of a tech: its length, cut to 16 bits, and its Windows-1252
/// encoding.
pub open spec fn tech_name_bytes(t: TechView) -> Seq<u8> {
    let e = windows_1252_encode(t.name);
    u16_bytes(e.len() as u16) + e
}

/// The bytes a tech is stored as.
pub open spec fn tech_bytes(t: TechView) -> Seq<u8> {
    tech_slots_bytes(t) + tech_fields_bytes(t) + tech_name_bytes(t)
}

/// The two bytes' worth of a string key: a number cut to 16 bits, or `0xFFFF`.
fn key16_value(k: &Option<StringKey>) -> (n: u16)
    ensures
        u16_bytes(n) == key16_bytes(opt_view(*k)),
{
    match k {
        Some(StringKey::Num(id)) => *id as u16,
        _ => 0xFFFF,
    }
}

impl Tech {
    /// Get the name of this tech.
    pub fn name(&self) -> (r: &str)
        ensures
            r@ == self@.name,
    {
        self.name.as_str()
    }

    /// Read a tech at `pos`; returns it and the position after it.
    pub fn read_from(input: &[u8], pos: usize) -> (r: Result<(Self, usize), ReadError>)
        ensures
            r is Ok <==> tech_readable(input@, pos as int),
            r matches Ok((t, p)) ==> t@ == tech_at(input@, pos as int) && p == tech_end(
                input@,
                pos as int,
            ),
            r matches Err(e) ==> e == ReadError::UnexpectedEof,
    {
        let ghost d = input@;
        let mut required_techs = tech_ids_new();
        let mut p = pos;
        let mut i: usize = 0;
        let ghost ids = stored_tech_ids(d, pos as int);
        assert(ids.take(0) =~= Seq::<Option<u16>>::empty());
        while i < 6
            invariant
                i <= 6,
                p == pos + 2 * i,
                i > 0 ==> p <= input.len(),
                d == input@,
                ids == stored_tech_ids(d, pos as int),
                held_tech_ids(required_techs) == kept_ids(ids.take(i as int)),
                held_tech_ids(required_techs).len() <= i,
            decreases 6 - i,
        {
            let (id, q) = match read_opt_u16(input, p) {
                Ok(x) => x,
                Err(e) => {
                    return Err(e);
                },
            };
            proof {
                assert(ids.take(i + 1).drop_last() =~= ids.take(i as int));
                assert(ids.take(i + 1).last() == ids[i as int]);
            }
            if let Some(n) = id {
                tech_ids_push(&mut required_techs, TechID::from(n));
            }
            p = q;
            i = i + 1;
        }
        assert(ids.take(6) =~= ids);
        let mut effects = effect_refs_new();
        let mut j: usize = 0;
        let ghost es = stored_effects(d, pos as int);
        assert(es.take(0) =~= Seq::<(u16, u16, bool)>::empty());
        while j < 3
            invariant
                j <= 3,
                p == pos + 12 + 5 * j,
                j > 0 ==> p <= input.len(),
                pos + 12 <= input.len(),
                d == input@,
                es == stored_effects(d, pos as int),
                held_effect_refs(effects) == kept_effects(es.take(j as int)),
                held_effect_refs(effects).len() <= j,
            decreases 3 - j,
        {
            let (effect, q) = TechEffectRef::read_from(input, p)?;
            proof {
                assert(es.take(j + 1).drop_last() =~= es.take(j as int));
                assert(es.take(j + 1).last() == es[j as int]);
            }
            if effect.effect_type != 0xFFFF {
                effect_refs_push(&mut effects, effect);
            }
            p = q;
            j = j + 1;
        }
        assert(es.take(3) =~= es);
        let (_num_required_techs, p) = read_u16_le(input, p)?;
        let (civilization_id, p) = read_opt_u16(input, p)?;
        let (full_tech_mode, p) = read_u16_le(input, p)?;
        let (location, p) = read_opt_u16(input, p)?;
        let (name_key, p) = read_opt_u16(input, p)?;
        let (description_key, p) = read_opt_u16(input, p)?;
        let (time, p) = read_u16_le(input, p)?;
        let (time2, p) = read_u16_le(input, p)?;
        let (type_, p) = read_u16_le(input, p)?;
        let (icon_id, p) = read_opt_u16(input, p)?;
        let (button_id, p) = read_u8(input, p)?;
        let (help_key, p) = read_opt_u32(input, p)?;
        let (help_page_id, p) = read_u32_le(input, p)?;
        let (hotkey, p) = read_opt_u32(input, p)?;
        let (name_len, p) = read_u16_le(input, p)?;
        let (bytes, p) = read_bytes(input, p, name_len as usize)?;
        let text = bytes_until_nul(bytes.as_slice());
        let name = decode_windows_1252_bytes(text.as_slice());
        let tech = Tech {
            required_techs,
            effects,
            civilization_id: match civilization_id {
                Some(n) => Some(CivilizationID::from(n)),
                None => None,
            },
            full_tech_mode,
            location: match location {
                Some(n) => Some(UnitTypeID::from(n)),
                None => None,
            },
            language_dll_name: match name_key {
                Some(n) => Some(StringKey::Num(n as u32)),
                None => None,
            },
            language_dll_description: match description_key {
                Some(n) => Some(StringKey::Num(n as u32)),
                None => None,
            },
            time,
            time2,
            type_,
            icon_id,
            button_id,
            language_dll_help: match help_key {
                Some(n) => Some(StringKey::Num(n)),
                None => None,
            },
            help_page_id,
            hotkey,
            name,
        };
        proof {
            assert(tech@ =~= tech_at(d, pos as int));
        }
        Ok((tech, p))
    }

    /// Append the places for required techs and effects.
    fn write_slots(&self, output: &mut Vec<u8>)
        ensures
            final(output)@ == old(output)@ + tech_slots_bytes(self@),
    {
        let ghost t = self@;
        let n = tech_ids_len(&self.required_techs);
        let mut i: usize = 0;
        while i < 6
            invariant
                i <= 6,
                n == t.required_techs.len(),
                t == self@,
                output@ == old(output)@ + id_slots(t.required_techs, i as nat),
            decreases 6 - i,
        {
            if i < n {
                put_u16_le(output, u16::from(tech_ids_get(&self.required_techs, i)));
            } else {
                put_u16_le(output, 0xFFFF);
            }
            i = i + 1;
            assert(output@ =~= old(output)@ + id_slots(t.required_techs, i as nat));
        }
        let ghost after_ids = output@;
        let m = effect_refs_len(&self.effects);
        let mut j: usize = 0;
        while j < 3
            invariant
                j <= 3,
                m == t.effects.len(),
                t == self@,
                output@ == after_ids + effect_slots(t.effects, j as nat),
            decreases 3 - j,
        {
            if j < m {
                effect_refs_get(&self.effects, j).write_to(output);
            } else {
                TechEffectRef { effect_type: 0xFFFF, amount: 0, enabled: false }.write_to(output);
            }
            j = j + 1;
            assert(output@ =~= after_ids + effect_slots(t.effects, j as nat));
        }
        assert(output@ =~= old(output)@ + tech_slots_bytes(t));
    }

    /// Append the first fixed fields.
    fn write_ids(&self, output: &mut Vec<u8>)
        ensures
            final(output)@ == old(output)@ + tech_ids_bytes(self@),
    {
        let n = tech_ids_len(&self.required_techs);
        let civilization_id = match self.civilization_id {
            Some(id) => Some(u16::from(id)),
            None => None,
        };
        let location = match self.location {
            Some(id) => Some(u16::from(id)),
            None => None,
        };
        let name_key = key16_value(&self.language_dll_name);
        let description_key = key16_value(&self.language_dll_description);
        put_u16_le(output, n as u16);
        put_opt_u16(output, civilization_id);
        put_u16_le(output, self.full_tech_mode);
        put_opt_u16(output, location);
        put_u16_le(output, name_key);
        put_u16_le(output, description_key);
        assert(output@ =~= old(output)@ + tech_ids_bytes(self@));
    }

    /// Append the other fixed fields.
    fn write_misc(&self, output: &mut Vec<u8>)
        ensures
            final(output)@ == old(output)@ + tech_misc_bytes(self@),
    {
        let help_key = match &self.language_dll_help {
            Some(StringKey::Num(id)) => *id,
            _ => 0xFFFF_FFFF,
        };
        assert(u32_bytes(help_key) == key32_bytes(self@.language_dll_help));
        put_u16_le(output, self.time);
        put_u16_le(output, self.time2);
        put_u16_le(output, self.type_);
        put_opt_u16(output, self.icon_id);
        output.push(self.button_id);
        put_u32_le(output, help_key);
        put_u32_le(output, self.help_page_id);
        put_opt_u32(output, self.hotkey);
        assert(output@ =~= old(output)@ + tech_misc_bytes(self@));
    }

    /// Append this tech to `output`. Its string keys must be numbers (or none): named keys
    /// cannot be stored in a data file.
    pub fn write_to(&self, output: &mut Vec<u8>)
        requires
            storable_key(self@.language_dll_name),
            storable_key(self@.language_dll_description),
            storable_key(self@.language_dll_help),
        ensures
            final(output)@ == old(output)@ + tech_bytes(self@),
    {
        self.write_slots(output);
        self.write_ids(output);
        self.write_misc(output);
        let encoded = encode_windows_1252(self.name.as_str());
        put_u16_le(output, encoded.len() as u16);
        push_bytes(output, encoded.as_slice());
        assert(output@ =~= old(output)@ + tech_bytes(self@));
    }
}


/// An effect reference reads back from the five bytes it is stored as.
proof fn lemma_effect_ref_field(data: Seq<u8>, pos: int, e: (u16, u16, bool))
    requires
        0 <= pos,
        pos + 5 <= data.len(),
        data.subrange(pos, pos + 5) == effect_ref_bytes(e),
    ensures
        effect_ref_at(data, pos) == e,
{
    lemma_field_lens();
    let b = effect_ref_bytes(e);
    assert(data.subrange(pos, pos + 2) =~= b.subrange(0, 2));
    assert(data.subrange(pos + 2, pos + 4) =~= b.subrange(2, 4));
    assert(b.subrange(0, 2) =~= u16_bytes(e.0));
    assert(b.subrange(2, 4) =~= u16_bytes(e.1));
    lemma_u16_field(data, pos, e.0);
    lemma_u16_field(data, pos + 2, e.1);
    assert(data[pos + 4] == b[4]);
}

proof fn lemma_id_slots_len(s: Seq<u16>, n: nat)
    ensures
        id_slots(s, n).len() == 2 * n,
    decreases n,
{
    lemma_field_lens();
    if n > 0 {
        lemma_id_slots_len(s, (n - 1) as nat);
    }
}

proof fn lemma_effect_slots_len(s: Seq<(u16, u16, bool)>, n: nat)
    ensures
        effect_slots(s, n).len() == 5 * n,
    decreases n,
{
    lemma_field_lens();
    if n > 0 {
        lemma_effect_slots_len(s, (n - 1) as nat);
    }
}

/// The places for required techs read back as the techs written, then as none.
proof fn lemma_id_slots_read(s: Seq<u16>, n: nat, data: Seq<u8>, pos: int)
    requires
        0 <= pos,
        pos + 2 * n <= data.len(),
        data.subrange(pos, pos + 2 * n) == id_slots(s, n),
        forall|i: int| 0 <= i < s.len() ==> s[i] != 0xFFFF,
    ensures
        forall|i: int|
            0 <= i < n ==> #[trigger] id_slot_at(data, pos, i) == (if i < s.len() {
                Some(s[i])
            } else {
                None
            }),
    decreases n,
{
    lemma_field_lens();
    if n > 0 {
        lemma_id_slots_len(s, (n - 1) as nat);
        let k = n - 1;
        assert(data.subrange(pos, pos + 2 * k) =~= id_slots(s, n).subrange(0, 2 * k));
        assert(id_slots(s, n).subrange(0, 2 * k) =~= id_slots(s, k as nat));
        lemma_id_slots_read(s, k as nat, data, pos);
        let slot: Option<u16> = if k < s.len() { Some(s[k]) } else { None };
        assert(data.subrange(pos + 2 * k, pos + 2 * n) =~= id_slots(s, n).subrange(2 * k, 2 * n as int));
        assert(id_slots(s, n).subrange(2 * k, 2 * n as int) =~= opt_u16_bytes(slot));
        lemma_opt_u16_field(data, pos + 2 * k, slot);
        assert forall|i: int| 0 <= i < n implies #[trigger] id_slot_at(data, pos, i) == (if i < s.len() {
            Some(s[i])
        } else {
            None
        }) by {
            if i == k {
                assert(id_slot_at(data, pos, k) == slot);
            }
        }
    }
}

/// The places for effects read back as the effects written, then as effects of type
/// `0xFFFF`.
proof fn lemma_effect_slots_read(s: Seq<(u16, u16, bool)>, n: nat, data: Seq<u8>, pos: int)
    requires
        0 <= pos,
        pos + 5 * n <= data.len(),
        data.subrange(pos, pos + 5 * n) == effect_slots(s, n),
    ensures
        forall|i: int|
            0 <= i < n ==> #[trigger] effect_slot_at(data, pos, i) == (if i < s.len() {
                s[i]
            } else {
                (0xFFFFu16, 0u16, false)
            }),
    decreases n,
{
    if n > 0 {
        lemma_effect_slots_len(s, (n - 1) as nat);
        lemma_field_lens();
        let k = n - 1;
        assert(data.subrange(pos, pos + 5 * k) =~= effect_slots(s, n).subrange(0, 5 * k));
        assert(effect_slots(s, n).subrange(0, 5 * k) =~= effect_slots(s, k as nat));
        lemma_effect_slots_read(s, k as nat, data, pos);
        let slot = if k < s.len() { s[k] } else { (0xFFFFu16, 0u16, false) };
        assert(data.subrange(pos + 5 * k, pos + 5 * n) =~= effect_slots(s, n).subrange(5 * k, 5 * n as int));
        assert(effect_slots(s, n).subrange(5 * k, 5 * n as int) =~= effect_ref_bytes(slot));
        lemma_effect_ref_field(data, pos + 5 * k, slot);
        assert forall|i: int| 0 <= i < n implies #[trigger] effect_slot_at(data, pos, i) == (if i < s.len() {
            s[i]
        } else {
            (0xFFFFu16, 0u16, false)
        }) by {
            if i == k {
                assert(effect_slot_at(data, pos, k) == slot);
            }
        }
    }
}

/// Keeping the places that hold a tech gives back the techs written.
proof fn lemma_kept_ids(s: Seq<u16>, st: Seq<Option<u16>>, n: int)
    requires
        0 <= n <= st.len(),
        forall|i: int|
            0 <= i < st.len() ==> #[trigger] st[i] == (if i < s.len() {
                Some(s[i])
            } else {
                None
            }),
    ensures
        kept_ids(st.take(n)) == s.take(if n <= s.len() { n } else { s.len() as int }),
    decreases n,
{
    if n == 0 {
        assert(st.take(0) =~= Seq::<Option<u16>>::empty());
        assert(s.take(0) =~= Seq::<u16>::empty());
    } else {
        lemma_kept_ids(s, st, n - 1);
        assert(st.take(n).drop_last() =~= st.take(n - 1));
        assert(st.take(n).last() == st[n - 1]);
        if n <= s.len() {
            assert(s.take(n - 1).push(s[n - 1]) =~= s.take(n));
        }
    }
}

/// Keeping the effects whose type is not `0xFFFF` gives back the effects written.
proof fn lemma_kept_effects(s: Seq<(u16, u16, bool)>, st: Seq<(u16, u16, bool)>, n: int)
    requires
        0 <= n <= st.len(),
        forall|i: int|
            0 <= i < st.len() ==> #[trigger] st[i] == (if i < s.len() {
                s[i]
            } else {
                (0xFFFFu16, 0u16, false)
            }),
        forall|i: int| 0 <= i < s.len() ==> (#[trigger] s[i]).0 != 0xFFFF,
    ensures
        kept_effects(st.take(n)) == s.take(if n <= s.len() { n } else { s.len() as int }),
    decreases n,
{
    if n == 0 {
        assert(st.take(0) =~= Seq::<(u16, u16, bool)>::empty());
        assert(s.take(0) =~= Seq::<(u16, u16, bool)>::empty());
    } else {
        lemma_kept_effects(s, st, n - 1);
        assert(st.take(n).drop_last() =~= st.take(n - 1));
        assert(st.take(n).last() == st[n - 1]);
        if n <= s.len() {
            assert(s.take(n - 1).push(s[n - 1]) =~= s.take(n));
        }
    }
}

/// Whether a tech reads back as it was written: at most six required techs and three
/// effects, none of them with the ID `0xFFFF`, which stands for an empty place; no optional
/// field holding the value that stands for none; string keys that are numbers that fit; and
/// a name whose encoding fits in 16 bits of length.
pub open spec fn tech_storable(t: TechView) -> bool {
    &&& t.required_techs.len() <= 6
    &&& forall|i: int| 0 <= i < t.required_techs.len() ==> t.required_techs[i] != 0xFFFF
    &&& t.effects.len() <= 3
    &&& forall|i: int| 0 <= i < t.effects.len() ==> (#[trigger] t.effects[i]).0 != 0xFFFF
    &&& t.civilization_id != Some(0xFFFFu16)
    &&& t.location != Some(0xFFFFu16)
    &&& t.icon_id != Some(0xFFFFu16)
    &&& t.hotkey != Some(0xFFFF_FFFFu32)
    &&& (t.language_dll_name matches Some(k) ==> k matches KeyView::Num(n) && n < 0xFFFF)
    &&& (t.language_dll_description matches Some(k) ==> k matches KeyView::Num(n) && n < 0xFFFF)
    &&& (t.language_dll_help matches Some(k) ==> k matches KeyView::Num(n) && n != 0xFFFF_FFFF)
    &&& windows_1252_encode(t.name).len() <= 0xFFFF
}

/// A tech as it reads back after it was written: the same, with its name encoded, cut at
/// its first NUL and decoded.
pub open spec fn tech_read_back(t: TechView) -> TechView {
    TechView { name: windows_1252_decode(until_nul(windows_1252_encode(t.name))), ..t }
}


proof fn lemma_part_lens(t: TechView)
    ensures
        tech_slots_bytes(t).len() == 27,
        tech_ids_bytes(t).len() == 12,
        tech_misc_bytes(t).len() == 21,
{
    lemma_field_lens();
    lemma_id_slots_len(t.required_techs, 6);
    lemma_effect_slots_len(t.effects, 3);
    assert(opt_u16_bytes(t.civilization_id).len() == 2);
    assert(opt_u16_bytes(t.location).len() == 2);
    assert(opt_u16_bytes(t.icon_id).len() == 2);
    assert(opt_u32_bytes(t.hotkey).len() == 4);
    assert(key16_bytes(t.language_dll_name).len() == 2);
    assert(key16_bytes(t.language_dll_description).len() == 2);
    assert(key32_bytes(t.language_dll_help).len() == 4);
}

/// A string key stored in two bytes reads back, if it is a number that fits.
proof fn lemma_key16_field(data: Seq<u8>, pos: int, k: Option<KeyView>)
    requires
        0 <= pos,
        pos + 2 <= data.len(),
        data.subrange(pos, pos + 2) == key16_bytes(k),
        k matches Some(v) ==> v matches KeyView::Num(n) && n < 0xFFFF,
    ensures
        key16(opt_u16_at(data, pos)) == k,
{
    match k {
        Some(KeyView::Num(n)) => {
            lemma_opt_u16_field(data, pos, Some(n as u16));
        },
        _ => {
            lemma_opt_u16_field(data, pos, None);
        },
    }
}

/// A string key stored in four bytes reads back, if it is a number other than `0xFFFF_FFFF`.
proof fn lemma_key32_field(data: Seq<u8>, pos: int, k: Option<KeyView>)
    requires
        0 <= pos,
        pos + 4 <= data.len(),
        data.subrange(pos, pos + 4) == key32_bytes(k),
        k matches Some(v) ==> v matches KeyView::Num(n) && n != 0xFFFF_FFFF,
    ensures
        key32(opt_u32_at(data, pos)) == k,
{
    match k {
        Some(KeyView::Num(n)) => {
            lemma_opt_u32_field(data, pos, Some(n));
        },
        _ => {
            lemma_opt_u32_field(data, pos, None);
        },
    }
}

proof fn lemma_tech_ids_read(data: Seq<u8>, q: int, t: TechView)
    requires
        0 <= q,
        q + 12 <= data.len(),
        data.subrange(q, q + 12) == tech_ids_bytes(t),
        tech_storable(t),
    ensures
        opt_u16_at(data, q + 2) == t.civilization_id,
        u16_at(data, q + 4) == t.full_tech_mode,
        opt_u16_at(data, q + 6) == t.location,
        key16(opt_u16_at(data, q + 8)) == t.language_dll_name,
        key16(opt_u16_at(data, q + 10)) == t.language_dll_description,
{
    lemma_part_lens(t);
    lemma_field_lens();
    let b = tech_ids_bytes(t);
    assert(data.subrange(q + 2, q + 4) =~= b.subrange(2, 4));
    assert(data.subrange(q + 4, q + 6) =~= b.subrange(4, 6));
    assert(data.subrange(q + 6, q + 8) =~= b.subrange(6, 8));
    assert(data.subrange(q + 8, q + 10) =~= b.subrange(8, 10));
    assert(data.subrange(q + 10, q + 12) =~= b.subrange(10, 12));
    assert(b.subrange(2, 4) =~= opt_u16_bytes(t.civilization_id));
    assert(b.subrange(4, 6) =~= u16_bytes(t.full_tech_mode));
    assert(b.subrange(6, 8) =~= opt_u16_bytes(t.location));
    assert(b.subrange(8, 10) =~= key16_bytes(t.language_dll_name));
    assert(b.subrange(10, 12) =~= key16_bytes(t.language_dll_description));
    lemma_opt_u16_field(data, q + 2, t.civilization_id);
    lemma_u16_field(data, q + 4, t.full_tech_mode);
    lemma_opt_u16_field(data, q + 6, t.location);
    lemma_key16_field(data, q + 8, t.language_dll_name);
    lemma_key16_field(data, q + 10, t.language_dll_description);
}

proof fn lemma_tech_misc_read(data: Seq<u8>, q: int, t: TechView)
    requires
        0 <= q,
        q + 21 <= data.len(),
        data.subrange(q, q + 21) == tech_misc_bytes(t),
        tech_storable(t),
    ensures
        u16_at(data, q) == t.time,
        u16_at(data, q + 2) == t.time2,
        u16_at(data, q + 4) == t.type_,
        opt_u16_at(data, q + 6) == t.icon_id,
        data[q + 8] == t.button_id,
        key32(opt_u32_at(data, q + 9)) == t.language_dll_help,
        u32_at(data, q + 13) == t.help_page_id,
        opt_u32_at(data, q + 17) == t.hotkey,
{
    lemma_part_lens(t);
    lemma_field_lens();
    let b = tech_misc_bytes(t);
    assert(data.subrange(q, q + 2) =~= b.subrange(0, 2));
    assert(data.subrange(q + 2, q + 4) =~= b.subrange(2, 4));
    assert(data.subrange(q + 4, q + 6) =~= b.subrange(4, 6));
    assert(data.subrange(q + 6, q + 8) =~= b.subrange(6, 8));
    assert(data.subrange(q + 9, q + 13) =~= b.subrange(9, 13));
    assert(data.subrange(q + 13, q + 17) =~= b.subrange(13, 17));
    assert(data.subrange(q + 17, q + 21) =~= b.subrange(17, 21));
    assert(b.subrange(0, 2) =~= u16_bytes(t.time));
    assert(b.subrange(2, 4) =~= u16_bytes(t.time2));
    assert(b.subrange(4, 6) =~= u16_bytes(t.type_));
    assert(b.subrange(6, 8) =~= opt_u16_bytes(t.icon_id));
    assert(b[8] == t.button_id);
    assert(data[q + 8] == b[8]);
    assert(b.subrange(9, 13) =~= key32_bytes(t.language_dll_help));
    assert(b.subrange(13, 17) =~= u32_bytes(t.help_page_id));
    assert(b.subrange(17, 21) =~= opt_u32_bytes(t.hotkey));
    lemma_u16_field(data, q, t.time);
    lemma_u16_field(data, q + 2, t.time2);
    lemma_u16_field(data, q + 4, t.type_);
    lemma_opt_u16_field(data, q + 6, t.icon_id);
    lemma_key32_field(data, q + 9, t.language_dll_help);
    lemma_u32_field(data, q + 13, t.help_page_id);
    lemma_opt_u32_field(data, q + 17, t.hotkey);
}

/// A tech that is written reads back as it was written, wherever it stands, with its name
/// encoded as Windows-1252, cut at its first NUL and decoded; provided that nothing in it
/// takes a value that stands for an empty place or none, and that its keys are numbers
/// that fit (see `tech_storable`).
pub proof fn law_tech_read_of_write(prefix: Seq<u8>, t: TechView, suffix: Seq<u8>)
    requires
        tech_storable(t),
    ensures
        ({
            let d = prefix + tech_bytes(t) + suffix;
            let p = prefix.len() as int;
            &&& tech_readable(d, p)
            &&& tech_end(d, p) == p + tech_bytes(t).len()
            &&& tech_at(d, p) == tech_read_back(t)
        }),
{
    lemma_field_lens();
    lemma_part_lens(t);
    let d = prefix + tech_bytes(t) + suffix;
    let p = prefix.len() as int;
    let e = windows_1252_encode(t.name);
    let sl = tech_slots_bytes(t);
    let ib = tech_ids_bytes(t);
    let mb = tech_misc_bytes(t);
    lemma_id_slots_len(t.required_techs, 6);
    lemma_effect_slots_len(t.effects, 3);
    assert(d.subrange(p, p + 27) =~= sl);
    assert(sl.subrange(0, 12) =~= id_slots(t.required_techs, 6));
    assert(sl.subrange(12, 27) =~= effect_slots(t.effects, 3));
    assert(d.subrange(p, p + 12) =~= sl.subrange(0, 12));
    assert(d.subrange(p + 12, p + 27) =~= sl.subrange(12, 27));
    assert(d.subrange(p + 27, p + 39) =~= ib);
    assert(d.subrange(p + 39, p + 60) =~= mb);
    assert(d.subrange(p + 60, p + 62) =~= u16_bytes(e.len() as u16));
    assert(d.subrange(p + 62, p + 62 + e.len()) =~= e);
    lemma_id_slots_read(t.required_techs, 6, d, p);
    lemma_effect_slots_read(t.effects, 3, d, p + 12);
    lemma_tech_ids_read(d, p + 27, t);
    lemma_tech_misc_read(d, p + 39, t);
    lemma_u16_field(d, p + 60, e.len() as u16);
    let ids = stored_tech_ids(d, p);
    assert forall|i: int| 0 <= i < ids.len() implies #[trigger] ids[i] == (if i < t.required_techs.len() {
        Some(t.required_techs[i])
    } else {
        None
    }) by {
        assert(ids[i] == id_slot_at(d, p, i));
    }
    lemma_kept_ids(t.required_techs, ids, 6);
    assert(ids.take(6) =~= ids);
    assert(t.required_techs.take(t.required_techs.len() as int) =~= t.required_techs);
    let es = stored_effects(d, p);
    assert forall|i: int| 0 <= i < es.len() implies #[trigger] es[i] == (if i < t.effects.len() {
        t.effects[i]
    } else {
        (0xFFFFu16, 0u16, false)
    }) by {
        assert(es[i] == effect_slot_at(d, p + 12, i));
    }
    lemma_kept_effects(t.effects, es, 3);
    assert(es.take(3) =~= es);
    assert(t.effects.take(t.effects.len() as int) =~= t.effects);
    assert(tech_at(d, p) =~= tech_read_back(t));
}

} // verus!
