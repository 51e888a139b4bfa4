//! Conversions between strings and character sequences.
use vstd::prelude::*;

verus! {

/// The characters of `s`.
pub fn chars_of(s: &str) -> (v: Vec<char>)
    ensures
        v@ == s@,
{
    let mut v: Vec<char> = Vec::new();
    broadcast use vstd::string::axiom_spec_iter;
    for c in it: s.chars()
        invariant
            v@ == it.seq().take(it.index() as int),
            it.seq() == s@,
    {
        v.push(c);
    }
    v
}


/// Appends a character to a string (std's `String::push`).
#[verifier::external_body]
pub(crate) fn push_char(s: &mut String, c: char)
    ensures
        final(s)@ == old(s)@.push(c),
{
    s.push(c);
}

/// The string made of the characters of `v`.
pub fn string_of(v: &[char]) -> (s: String)
    ensures
        s@ == v@,
{
    let mut s = String::new();
    let mut i: usize = 0;
    while i < v.len()
        invariant
            i <= v.len(),
            s@ == v@.take(i as int),
        decreases v.len() - i,
    {
        push_char(&mut s, v[i]);
        i = i + 1;
        assert(s@ =~= v@.take(i as int));
    }
    assert(v@.take(v.len() as int) =~= v@);
    s
}

/// Appends the characters of `t` to `s`.
pub fn push_str(s: &mut String, t: &str)
    ensures
        final(s)@ == old(s)@ + t@,
{
    let v = chars_of(t);
    let mut i: usize = 0;
    while i < v.len()
        invariant
            i <= v.len(),
            v@ == t@,
            s@ == old(s)@ + v@.take(i as int),
        decreases v.len() - i,
    {
        push_char(s, v[i]);
        i = i + 1;
        assert(s@ =~= old(s)@ + v@.take(i as int));
    }
    assert(v@.take(v.len() as int) =~= v@);
}

/// Whether `c` is an ASCII decimal digit.
pub open spec fn is_digit(c: char) -> bool {
    '0' <= c <= '9'
}

/// The value of a decimal digit.
pub open spec fn digit_value(c: char) -> nat {
    (c as int - '0' as int) as nat
}

/// The digit character with value `d`.
pub open spec fn digit_char(d: nat) -> char {
    ('0' as int + d) as char
}

/// The number written by a sequence of decimal digits, most significant first.
pub open spec fn decimal_value(d: Seq<char>) -> nat
    decreases d.len(),
{
    if d.len() == 0 {
        0
    } else {
        decimal_value(d.drop_last()) * 10 + digit_value(d.last())
    }
}

/// The shortest decimal representation of `n`.
pub open spec fn decimal_digits(n: nat) -> Seq<char>
    decreases n,
{
    if n < 10 {
        seq![digit_char(n)]
    } else {
        decimal_digits(n / 10).push(digit_char(n % 10))
    }
}

/// The decimal representation of a signed number: a minus sign before negative numbers.
pub open spec fn signed_decimal(n: int) -> Seq<char> {
    if n < 0 {
        seq!['-'] + decimal_digits((-n) as nat)
    } else {
        decimal_digits(n as nat)
    }
}

/// The digits of a number string: without a leading `+`.
pub open spec fn unsigned_digits(s: Seq<char>) -> Seq<char> {
    if s.len() > 0 && s[0] == '+' {
        s.drop_first()
    } else {
        s
    }
}

/// Every character is a decimal digit.
pub open spec fn all_digits(d: Seq<char>) -> bool {
    forall|i: int| 0 <= i < d.len() ==> is_digit(#[trigger] d[i])
}

/// What `str::parse::<u32>` accepts: an optional `+`, then one or more decimal digits
/// whose value fits in a `u32`.
pub open spec fn parsed_u32(s: Seq<char>) -> Option<u32> {
    let d = unsigned_digits(s);
    if d.len() > 0 && all_digits(d) && decimal_value(d) <= u32::MAX {
        Some(decimal_value(d) as u32)
    } else {
        None
    }
}

/// Parses a decimal `u32` the way `str::parse` does.
pub fn parse_u32(s: &[char]) -> (r: Option<u32>)
    ensures
        r == parsed_u32(s@),
{
    let start: usize = if s.len() > 0 && s[0] == '+' {
        1
    } else {
        0
    };
    let ghost d = unsigned_digits(s@);
    assert(d =~= s@.subrange(start as int, s@.len() as int));
    if start >= s.len() {
        assert(d.len() == 0);
        return None;
    }
    let mut acc: u64 = 0;
    let mut i: usize = start;
    while i < s.len()
        invariant
            start <= i <= s.len(),
            d == s@.subrange(start as int, s@.len() as int),
            d == unsigned_digits(s@),
            forall|j: int| start <= j < i ==> is_digit(#[trigger] s@[j]),
            acc == if decimal_value(s@.subrange(start as int, i as int)) <= 0x1_0000_0000 {
                decimal_value(s@.subrange(start as int, i as int))
            } else {
                0x1_0000_0000
            },
        decreases s.len() - i,
    {
        let c = s[i];
        if !('0' <= c && c <= '9') {
            assert(d[i - start] == c);
            assert(!is_digit(d[i - start]));
            assert(!all_digits(d));
            return None;
        }
        let dv = (c as u32 - '0' as u32) as u64;
        proof {
            let pre = s@.subrange(start as int, i as int);
            assert(s@.subrange(start as int, i + 1) =~= pre.push(c));
            assert(s@.subrange(start as int, i + 1).drop_last() =~= pre);
        }
        acc = acc * 10 + dv;
        if acc > 0x1_0000_0000 {
            acc = 0x1_0000_0000;
        }
        i = i + 1;
    }
    assert(s@.subrange(start as int, s.len() as int) =~= d);
    if acc <= 0xffff_ffff {
        Some(acc as u32)
    } else {
        None
    }
}

/// The decimal representation of `n`.
pub fn u64_decimal(n: u64) -> (v: Vec<char>)
    ensures
        v@ == decimal_digits(n as nat),
    decreases n,
{
    if n < 10 {
        let mut v = Vec::new();
        v.push(char_of_digit(n as u8));
        v
    } else {
        let mut v = u64_decimal(n / 10);
        v.push(char_of_digit((n % 10) as u8));
        v
    }
}

fn char_of_digit(d: u8) -> (c: char)
    requires
        d < 10,
    ensures
        c == digit_char(d as nat),
{
    match d {
        0 => '0',
        1 => '1',
        2 => '2',
        3 => '3',
        4 => '4',
        5 => '5',
        6 => '6',
        7 => '7',
        8 => '8',
        _ => '9',
    }
}

/// The decimal representation of a signed number.
pub fn i64_decimal(n: i64) -> (v: Vec<char>)
    ensures
        v@ == signed_decimal(n as int),
{
    if n < 0 {
        let m: u64 = if n == i64::MIN {
            0x8000_0000_0000_0000
        } else {
            (-n) as u64
        };
        let digits = u64_decimal(m);
        let mut v = Vec::new();
        v.push('-');
        let mut i: usize = 0;
        while i < digits.len()
            invariant
                i <= digits.len(),
                v@ == seq!['-'] + digits@.take(i as int),
            decreases digits.len() - i,
        {
            v.push(digits[i]);
            i = i + 1;
            assert(v@ =~= seq!['-'] + digits@.take(i as int));
        }
        assert(digits@.take(digits.len() as int) =~= digits@);
        v
    } else {
        u64_decimal(n as u64)
    }
}


proof fn lemma_digit_char(d: nat)
    requires
        d < 10,
    ensures
        digit_value(digit_char(d)) == d,
        is_digit(digit_char(d)),
{
    assert(('0' as int + d) as char as int == '0' as int + d);
}

/// Decimal digits denote the number they were written from.
pub proof fn lemma_decimal_digits_value(n: nat)
    ensures
        decimal_value(decimal_digits(n)) == n,
        decimal_digits(n).len() > 0,
        all_digits(decimal_digits(n)),
    decreases n,
{
    if n < 10 {
        lemma_digit_char(n);
        let d = decimal_digits(n);
        assert(d.drop_last() =~= Seq::<char>::empty());
        assert(decimal_value(Seq::<char>::empty()) == 0);
        assert(decimal_value(d) == decimal_value(d.drop_last()) * 10 + digit_value(d.last()));
    } else {
        lemma_digit_char(n % 10);
        lemma_decimal_digits_value(n / 10);
        let d = decimal_digits(n);
        assert(d.drop_last() =~= decimal_digits(n / 10));
        assert(d.last() == digit_char(n % 10));
        assert(decimal_value(d) == decimal_value(decimal_digits(n / 10)) * 10 + digit_value(
            digit_char(n % 10),
        ));
        assert((n / 10) * 10 + n % 10 == n);
        assert forall|i: int| 0 <= i < d.len() implies is_digit(#[trigger] d[i]) by {
            if i < d.len() - 1 {
                assert(d[i] == decimal_digits(n / 10)[i]);
            }
        }
    }
}

/// `str::parse::<u32>` reads back the decimal representation of a `u32`.
pub proof fn lemma_decimal_digits_parse(n: nat)
    requires
        n <= u32::MAX,
    ensures
        parsed_u32(decimal_digits(n)) == Some(n as u32),
{
    lemma_decimal_digits_value(n);
    assert(is_digit(decimal_digits(n)[0]));
    assert(unsigned_digits(decimal_digits(n)) == decimal_digits(n));
}


/// Compares two texts character by character.
pub fn same_text(a: &str, b: &str) -> (r: bool)
    ensures
        r == (a@ == b@),
{
    let x = chars_of(a);
    let y = chars_of(b);
    if x.len() != y.len() {
        return false;
    }
    let mut i: usize = 0;
    while i < x.len()
        invariant
            x@ == a@,
            y@ == b@,
            x@.len() == y@.len(),
            i <= x@.len(),
            forall|j: int| 0 <= j < i ==> x@[j] == y@[j],
        decreases x.len() - i,
    {
        if x[i] != y[i] {
            return false;
        }
        i = i + 1;
    }
    assert(x@ =~= y@);
    true
}

} // verus!
