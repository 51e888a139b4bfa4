//! Tech effects: named groups of attribute changes.
use crate::codec::{
    bytes_until_nul, i16_at, i16_bytes, lemma_add_assoc, lemma_field_lens, lemma_i16_field,
    lemma_pow256_values, lemma_u32_field, put_i16_le, put_u16_le, put_u32_le, read_bytes,
    read_i16_le, read_u16_le, read_u32_le, read_u8, u16_at, u16_bytes, u32_at, u32_bytes,
    until_nul, ReadError,
};
use crate::dat::fields::lemma_u8_field;
use crate::lang::encoding::{decode_windows_1252_bytes, windows_1252_decode};
use arrayvec::ArrayString;
use vstd::prelude::*;
use vstd::string::StringSliceAdditionalSpecFns;
use vstd::utf8::encode_utf8;

verus! {

/// An effect command specifies an attribute change when a tech effect is triggered; the last parameter is the bit pattern of an `f32`.
#[derive(Debug, Default, Clone, Copy)]
pub struct EffectCommand {
    /// The command.
    pub command_type: u8,
    /// Command-dependent parameters.
    pub params: (i16, i16, i16, u32),
}

impl View for EffectCommand {
    type V = EffectCommandView;

    open spec fn view(&self) -> EffectCommandView {
        EffectCommandView {
            command_type: self.command_type,
            params_0: self.params.0,
            params_1: self.params.1,
            params_2: self.params.2,
            params_3: self.params.3,
        }
    }
}

/// The fields of a effect command as values.
pub ghost struct EffectCommandView {
    pub command_type: u8,
    pub params_0: i16,
    pub params_1: i16,
    pub params_2: i16,
    pub params_3: u32,
}

/// The effect command stored at `pos`.
pub open spec fn effect_command_at(data: Seq<u8>, pos: int) -> EffectCommandView {
    EffectCommandView {
        command_type: data[pos],
        params_0: i16_at(data, pos + 1),
        params_1: i16_at(data, pos + 3),
        params_2: i16_at(data, pos + 5),
        params_3: u32_at(data, pos + 7),
    }
}

/// The 11 bytes an effect command is stored as.
pub open spec fn effect_command_bytes(v: EffectCommandView) -> Seq<u8> {
    seq![v.command_type]
        + i16_bytes(v.params_0)
        + i16_bytes(v.params_1)
        + i16_bytes(v.params_2)
        + u32_bytes(v.params_3)
}

/// The values that can be written: IDs that the game writes as signed numbers fit.
pub open spec fn effect_command_writable(v: EffectCommandView) -> bool {
    true
}

/// The values that read back as written: IDs fit, and none is `0xFFFF`.
pub open spec fn effect_command_exact(v: EffectCommandView) -> bool {
    true
}

impl EffectCommand {
    /// Read an effect command at `pos`; returns it and the position after it.
    pub fn read_from(input: &[u8], pos: usize) -> (r: Result<(Self, usize), ReadError>)
        ensures
            r is Ok <==> pos + 11 <= input.len(),
            r matches Ok((x, q)) ==> x@ == effect_command_at(input@, pos as int) && q == pos + 11,
            r matches Err(e) ==> e == ReadError::UnexpectedEof,
    {
        let p = pos;
        let (command_type, p) = read_u8(input, p)?;
        let (params_0, p) = read_i16_le(input, p)?;
        let (params_1, p) = read_i16_le(input, p)?;
        let (params_2, p) = read_i16_le(input, p)?;
        let (params_3, p) = read_u32_le(input, p)?;
        Ok((EffectCommand { command_type, params: (params_0, params_1, params_2, params_3) }, p))
    }

    /// Append this effect command to `output`.
    pub fn write_to(&self, output: &mut Vec<u8>)
        requires
            effect_command_writable(self@),
        ensures
            final(output)@ == old(output)@ + effect_command_bytes(self@),
    {
        let ghost s0 = output@;
        output.push(self.command_type);
        let ghost mut acc = seq![self@.command_type];
        assert(output@ == s0 + acc);
        put_i16_le(output, self.params.0);
        proof {
            lemma_add_assoc(s0, acc, i16_bytes(self@.params_0));
            acc = acc + i16_bytes(self@.params_0);
        }
        put_i16_le(output, self.params.1);
        proof {
            lemma_add_assoc(s0, acc, i16_bytes(self@.params_1));
            acc = acc + i16_bytes(self@.params_1);
        }
        put_i16_le(output, self.params.2);
        proof {
            lemma_add_assoc(s0, acc, i16_bytes(self@.params_2));
            acc = acc + i16_bytes(self@.params_2);
        }
        put_u32_le(output, self.params.3);
        proof {
            lemma_add_assoc(s0, acc, u32_bytes(self@.params_3));
            acc = acc + u32_bytes(self@.params_3);
        }
        assert(acc == effect_command_bytes(self@));
    }
}

/// An effect command that is written reads back unchanged, wherever it stands.
pub proof fn law_effect_command_read_of_write(prefix: Seq<u8>, v: EffectCommandView, suffix: Seq<u8>)
    requires
        effect_command_exact(v),
    ensures
        effect_command_bytes(v).len() == 11,
        effect_command_at(prefix + effect_command_bytes(v) + suffix, prefix.len() as int) == v,
{
    lemma_field_lens();
    lemma_pow256_values();
    let data = prefix + effect_command_bytes(v) + suffix;
    let p = prefix.len() as int;
    assert(data.subrange(p, p + 1) =~= seq![v.command_type]);
    lemma_u8_field(data, p, v.command_type);
    assert(data.subrange(p + 1, p + 3) =~= i16_bytes(v.params_0));
    lemma_i16_field(data, p + 1, v.params_0);
    assert(data.subrange(p + 3, p + 5) =~= i16_bytes(v.params_1));
    lemma_i16_field(data, p + 3, v.params_1);
    assert(data.subrange(p + 5, p + 7) =~= i16_bytes(v.params_2));
    lemma_i16_field(data, p + 5, v.params_2);
    assert(data.subrange(p + 7, p + 11) =~= u32_bytes(v.params_3));
    lemma_u32_field(data, p + 7, v.params_3);
}

/// `arrayvec`'s fixed-capacity string.
#[verifier::external_type_specification]
#[verifier::external_body]
pub struct ExArrayString<const CAP: usize>(ArrayString<CAP>);

/// `Clone` of `ArrayString`, which the derived `Clone` of a tech effect calls; nothing is
/// claimed of the copy.
pub assume_specification<const CAP: usize>[<ArrayString<CAP> as Clone>::clone](
    s: &ArrayString<CAP>,
) -> ArrayString<CAP>;

/// The text that an effect name of `arrayvec` holds.
pub uninterp spec fn held_effect_name(s: ArrayString<31>) -> Seq<char>;

/// `ArrayString::from`: the name holding `s`, which fails when `s` takes more than 31 bytes.
#[verifier::external_body]
fn effect_name_from(s: &str) -> (r: Option<ArrayString<31>>)
    ensures
        r is Some <==> s.spec_bytes().len() <= 31,
        r matches Some(a) ==> held_effect_name(a) == s@,
{
    match ArrayString::<31>::from(s) {
        Ok(a) => Some(a),
        Err(_) => None,
    }
}

/// `ArrayString::as_str`: the text held, which never takes more than the capacity of 31
/// bytes.
#[verifier::external_body]
fn effect_name_str(a: &ArrayString<31>) -> (r: &str)
    ensures
        r@ == held_effect_name(*a),
        r.spec_bytes().len() <= 31,
{
    a.as_str()
}

/// A tech effect is a group of attribute changes that are applied when the effect is
/// triggered.
#[derive(Debug, Default, Clone)]
pub struct TechEffect {
    /// Name for the effect.
    name: ArrayString<31>,
    /// Attribute commands to execute when this effect is triggered.
    pub commands: Vec<EffectCommand>,
}

/// The values of a list of effect commands.
pub open spec fn commands_view(v: Seq<EffectCommand>) -> Seq<EffectCommandView> {
    v.map_values(|c: EffectCommand| c@)
}

impl View for TechEffect {
    /// The name, and the commands.
    type V = (Seq<char>, Seq<EffectCommandView>);

    closed spec fn view(&self) -> (Seq<char>, Seq<EffectCommandView>) {
        (held_effect_name(self.name), commands_view(self.commands@))
    }
}

/// The name stored in the 31 bytes at `pos`: the bytes before the first NUL, decoded as
/// Windows-1252.
pub open spec fn effect_name_at(data: Seq<u8>, pos: int) -> Seq<char> {
    windows_1252_decode(until_nul(data.subrange(pos, pos + 31)))
}

/// The tech effect stored at `pos`: a name of 31 bytes, the number of commands and the
/// commands; and the position after it.
pub open spec fn tech_effect_at(data: Seq<u8>, pos: int) -> Option<((Seq<char>, Seq<EffectCommandView>), int)> {
    if pos + 33 > data.len() {
        None
    } else {
        let n = u16_at(data, pos + 31) as nat;
        if pos + 33 + 11 * n > data.len() {
            None
        } else {
            Some(
                (
                    (effect_name_at(data, pos), Seq::new(n, |i: int| effect_command_at(data, pos + 33 + 11 * i))),
                    pos + 33 + 11 * n,
                ),
            )
        }
    }
}

/// The name of the tech effect at `pos` takes at most 31 bytes once decoded, where the input
/// holds it (a longer one does not fit, and reading it panics).
pub open spec fn tech_effect_readable(data: Seq<u8>, pos: int) -> bool {
    pos + 31 <= data.len() ==> encode_utf8(effect_name_at(data, pos)).len() <= 31
}

/// The bytes of a list of effect commands.
pub open spec fn commands_bytes(s: Seq<EffectCommandView>) -> Seq<u8>
    decreases s.len(),
{
    if s.len() == 0 {
        Seq::empty()
    } else {
        commands_bytes(s.drop_last()) + effect_command_bytes(s.last())
    }
}

/// The bytes a tech effect is stored as: its name as UTF-8, padded with NULs to 31 bytes,
/// the number of commands (truncated to 16 bits) and the commands.
pub open spec fn tech_effect_bytes(v: (Seq<char>, Seq<EffectCommandView>)) -> Seq<u8> {
    encode_utf8(v.0) + Seq::new((31 - encode_utf8(v.0).len()) as nat, |i: int| 0u8) + u16_bytes(
        v.1.len() as u16,
    ) + commands_bytes(v.1)
}

/// Reads `n` effect commands at `pos`.
fn read_commands(input: &[u8], pos: usize, n: u16) -> (r: Result<(Vec<EffectCommand>, usize), ReadError>)
    requires
        pos <= input.len(),
    ensures
        r is Ok <==> pos + 11 * n <= input.len(),
        r matches Ok((v, p)) ==> commands_view(v@) == Seq::new(
            n as nat,
            |i: int| effect_command_at(input@, pos + 11 * i),
        ) && p == pos + 11 * n,
        r matches Err(e) ==> e == ReadError::UnexpectedEof,
{
    let mut v: Vec<EffectCommand> = Vec::new();
    let mut p = pos;
    let mut i: u16 = 0;
    while i < n
        invariant
            i <= n,
            p == pos + 11 * i,
            p <= input.len(),
            v@.len() == i,
            forall|j: int| 0 <= j < i ==> #[trigger] v@[j]@ == effect_command_at(input@, pos + 11 * j),
        decreases n - i,
    {
        let (c, q) = EffectCommand::read_from(input, p)?;
        v.push(c);
        p = q;
        i = i + 1;
    }
    assert(commands_view(v@) =~= Seq::new(n as nat, |j: int| effect_command_at(input@, pos + 11 * j)));
    Ok((v, p))
}

impl TechEffect {
    /// Get the name of this effect.
    pub fn name(&self) -> (s: &str)
        ensures
            s@ == self@.0,
    {
        effect_name_str(&self.name)
    }

    /// Set the name of this effect. The name must take at most 31 bytes (a longer one
    /// panics).
    pub fn set_name(&mut self, name: &str)
        requires
            name.spec_bytes().len() <= 31,
        ensures
            final(self)@ == (name@, old(self)@.1),
    {
        match effect_name_from(name) {
            Some(n) => {
                self.name = n;
            },
            None => {
                assert(false);
            },
        }
    }

    /// Read a tech effect at `pos`; returns it and the position after it.
    pub fn read_from(input: &[u8], pos: usize) -> (r: Result<(Self, usize), ReadError>)
        requires
            tech_effect_readable(input@, pos as int),
        ensures
            match tech_effect_at(input@, pos as int) {
                Some((v, q)) => r matches Ok((e, p)) && e@ == v && p == q,
                None => r == Err::<(Self, usize), ReadError>(ReadError::UnexpectedEof),
            },
    {
        let (raw, p) = read_bytes(input, pos, 31)?;
        let kept = bytes_until_nul(raw.as_slice());
        let text = decode_windows_1252_bytes(kept.as_slice());
        let name = match effect_name_from(text.as_str()) {
            Some(n) => n,
            None => {
                assert(false);
                return Err(ReadError::InvalidData);
            },
        };
        let (num_commands, p) = read_u16_le(input, p)?;
        let (commands, p) = read_commands(input, p, num_commands)?;
        Ok((TechEffect { name, commands }, p))
    }

    /// Append this tech effect to `output`.
    pub fn write_to(&self, output: &mut Vec<u8>)
        ensures
            final(output)@ == old(output)@ + tech_effect_bytes(self@),
    {
        let name = effect_name_str(&self.name).as_bytes();
        let mut k: usize = 0;
        while k < name.len()
            invariant
                k <= name.len(),
                output@ == old(output)@ + name@.take(k as int),
            decreases name.len() - k,
        {
            output.push(name[k]);
            assert(name@.take(k + 1) =~= name@.take(k as int).push(name@[k as int]));
            k = k + 1;
        }
        assert(name@.take(name.len() as int) =~= name@);
        let ghost s1 = output@;
        while k < 31
            invariant
                name.len() <= k <= 31,
                output@ == s1 + Seq::new((k - name.len()) as nat, |i: int| 0u8),
            decreases 31 - k,
        {
            output.push(0u8);
            assert(output@ =~= s1 + Seq::new((k + 1 - name.len()) as nat, |i: int| 0u8));
            k = k + 1;
        }
        put_u16_le(output, self.commands.len() as u16);
        let ghost s2 = output@;
        let ghost w = commands_view(self.commands@);
        assert(w.take(0) =~= Seq::<EffectCommandView>::empty());
        let mut i: usize = 0;
        while i < self.commands.len()
            invariant
                i <= self.commands.len(),
                w == commands_view(self.commands@),
                output@ == s2 + commands_bytes(w.take(i as int)),
            decreases self.commands.len() - i,
        {
            self.commands[i].write_to(output);
            assert(w.take(i + 1).drop_last() =~= w.take(i as int));
            assert(w.take(i + 1).last() == self.commands@[i as int]@);
            i = i + 1;
        }
        assert(w.take(self.commands.len() as int) =~= w);
        assert(output@ =~= old(output)@ + tech_effect_bytes(self@));
    }
}

} // verus!
