//! Keys of language file strings.
use crate::text::{chars_of, parse_u32, parsed_u32, string_of, u64_decimal, decimal_digits};
use vstd::prelude::*;
use vstd::std_specs::cmp::PartialEqSpecImpl;
use vstd::std_specs::convert::FromSpecImpl;

verus! {

/// A key in a language file.
///
/// A key may be either a nonnegative integer or an arbitrary string.
///
/// The original game supports only nonnegative integers.
/// The HD Edition allows for integers as well as Strings to serve as keys in a
/// key value file.
#[derive(Debug, Hash)]
pub enum StringKey {
    /// An integer string key.
    Num(u32),
    /// A named string key.
    /// The string must not represent a `u32` value (such keys must be `Num`).
    Name(String),
}

/// The abstract value of a [`StringKey`].
pub ghost enum KeyView {
    Num(u32),
    Name(Seq<char>),
}

impl View for StringKey {
    type V = KeyView;

    open spec fn view(&self) -> KeyView {
        match self {
            StringKey::Num(n) => KeyView::Num(*n),
            StringKey::Name(s) => KeyView::Name(s@),
        }
    }
}

/// The key that a piece of text denotes: a number if `str::parse::<u32>` accepts it,
/// a name otherwise.
pub open spec fn key_of_text(s: Seq<char>) -> KeyView {
    match parsed_u32(s) {
        Some(n) => KeyView::Num(n),
        None => KeyView::Name(s),
    }
}

/// The text of a key as it is written in language files.
pub open spec fn key_text(k: KeyView) -> Seq<char> {
    match k {
        KeyView::Num(n) => decimal_digits(n as nat),
        KeyView::Name(s) => s,
    }
}

impl Clone for StringKey {
    fn clone(&self) -> (r: Self)
        ensures
            r@ == self@,
    {
        match self {
            StringKey::Num(n) => StringKey::Num(*n),
            StringKey::Name(s) => StringKey::Name(s.clone()),
        }
    }
}

impl Default for StringKey {
    /// The key number 0.
    fn default() -> (r: Self)
        ensures
            r@ == KeyView::Num(0),
    {
        StringKey::Num(0)
    }
}

impl PartialEq for StringKey {
    fn eq(&self, other: &Self) -> (r: bool) {
        match (self, other) {
            (StringKey::Num(a), StringKey::Num(b)) => *a == *b,
            (StringKey::Name(a), StringKey::Name(b)) => *a == *b,
            _ => false,
        }
    }
}

impl PartialEqSpecImpl for StringKey {
    open spec fn obeys_eq_spec() -> bool {
        true
    }

    open spec fn eq_spec(&self, other: &Self) -> bool {
        self@ == other@
    }
}

impl Eq for StringKey {

}

impl StringKey {
    /// Compares two keys by value.
    pub fn same(&self, other: &StringKey) -> (r: bool)
        ensures
            r == (self@ == other@),
    {
        match (self, other) {
            (StringKey::Num(a), StringKey::Num(b)) => *a == *b,
            (StringKey::Name(a), StringKey::Name(b)) => *a == *b,
            _ => false,
        }
    }

    /// Returns `true` if and only if this `StringKey` is a number.
    pub fn is_numeric(&self) -> (r: bool)
        ensures
            r == (self@ is Num),
    {
        match self {
            StringKey::Num(_) => true,
            StringKey::Name(_) => false,
        }
    }

    /// Returns `true` if and only if this `StringKey` is a string name.
    pub fn is_named(&self) -> (r: bool)
        ensures
            r == (self@ is Name),
    {
        match self {
            StringKey::Num(_) => false,
            StringKey::Name(_) => true,
        }
    }

    /// The key denoted by the characters `s`.
    pub fn from_chars(s: &[char]) -> (k: StringKey)
        ensures
            k@ == key_of_text(s@),
    {
        match parse_u32(s) {
            Some(n) => StringKey::Num(n),
            None => StringKey::Name(string_of(s)),
        }
    }

    /// The text of this key, as written in language files (`Display`).
    pub fn to_chars(&self) -> (v: Vec<char>)
        ensures
            v@ == key_text(self@),
    {
        match self {
            StringKey::Num(n) => u64_decimal(*n as u64),
            StringKey::Name(s) => chars_of(s.as_str()),
        }
    }

    /// The text of this key, as written in language files (`Display`).
    pub fn to_string(&self) -> (s: String)
        ensures
            s@ == key_text(self@),
    {
        let v = self.to_chars();
        string_of(v.as_slice())
    }
}

impl From<u32> for StringKey {
    fn from(n: u32) -> (r: Self) {
        StringKey::Num(n)
    }
}

impl FromSpecImpl<u32> for StringKey {
    open spec fn obeys_from_spec() -> bool {
        true
    }

    open spec fn from_spec(n: u32) -> Self {
        StringKey::Num(n)
    }
}

impl From<i32> for StringKey {
    /// Negative numbers wrap around, as with `as u32`.
    fn from(n: i32) -> (r: Self) {
        StringKey::Num(n as u32)
    }
}

impl FromSpecImpl<i32> for StringKey {
    open spec fn obeys_from_spec() -> bool {
        true
    }

    open spec fn from_spec(n: i32) -> Self {
        StringKey::Num(n as u32)
    }
}

impl<'a> From<&'a str> for StringKey {
    fn from(s: &'a str) -> (r: Self)
        ensures
            r@ == key_of_text(s@),
    {
        let v = chars_of(s);
        StringKey::from_chars(v.as_slice())
    }
}

impl<'a> FromSpecImpl<&'a str> for StringKey {
    /// The key is given by the `ensures` of `from` alone.
    open spec fn obeys_from_spec() -> bool {
        false
    }

    open spec fn from_spec(s: &'a str) -> Self {
        choose|k: StringKey| k@ == key_of_text(s@)
    }
}

impl From<String> for StringKey {
    fn from(s: String) -> (r: Self)
        ensures
            r@ == key_of_text(s@),
    {
        let v = chars_of(s.as_str());
        StringKey::from_chars(v.as_slice())
    }
}

impl FromSpecImpl<String> for StringKey {
    /// The key is given by the `ensures` of `from` alone.
    open spec fn obeys_from_spec() -> bool {
        false
    }

    open spec fn from_spec(s: String) -> Self {
        choose|k: StringKey| k@ == key_of_text(s@)
    }
}

/// A key written out and read back is the same key, for numbers and for names that
/// are not number strings.
pub proof fn law_key_text_roundtrip(k: KeyView)
    requires
        k matches KeyView::Name(s) ==> parsed_u32(s) is None,
    ensures
        key_of_text(key_text(k)) == k,
{
    match k {
        KeyView::Num(n) => {
            crate::text::lemma_decimal_digits_parse(n as nat);
        },
        KeyView::Name(s) => {},
    }
}

} // verus!
