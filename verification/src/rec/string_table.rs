//! Tables of strings stored in recorded games.
//!
//! A table is stored as its capacity (`u16`), its number of strings (`u16`), a pointer
//! field (`u32`, written as 0) and the strings, each a `u32` byte length and UTF-8 bytes.
use crate::codec::{
    law_le_read_of_write, lemma_le_bytes_len, lemma_pow256_values, le_at, le_bytes, push_bytes,
    put_u16_le, put_u32_le, read_bytes, read_u16_le, read_u32_le, ReadError,
};
use crate::lang::encoding::decode_utf8_text;
use vstd::prelude::*;
use vstd::utf8::{decode_utf8, encode_utf8, valid_utf8};

verus! {

/// A table of strings with a maximum size.
#[derive(Debug, Clone)]
pub struct StringTable {
    max_strings: u16,
    strings: Vec<String>,
}

/// The texts of a sequence of strings.
pub open spec fn texts(v: Seq<String>) -> Seq<Seq<char>> {
    v.map_values(|s: String| s@)
}

impl View for StringTable {
    /// The maximum number of strings, and the strings.
    type V = (u16, Seq<Seq<char>>);

    closed spec fn view(&self) -> (u16, Seq<Seq<char>>) {
        (self.max_strings, texts(self.strings@))
    }
}

/// The length-prefixed string at `p`: its bytes, and the position after it.
pub open spec fn string_at(d: Seq<u8>, p: int) -> Option<(Seq<u8>, int)> {
    if p + 4 <= d.len() && p + 4 + le_at(d, p, 4) <= d.len() {
        Some((d.subrange(p + 4, p + 4 + le_at(d, p, 4)), p + 4 + le_at(d, p, 4)))
    } else {
        None
    }
}

/// The `n` length-prefixed strings at `p`: their bytes, and the position after them.
pub open spec fn strings_at(d: Seq<u8>, p: int, n: nat) -> Option<(Seq<Seq<u8>>, int)>
    decreases n,
{
    if n == 0 {
        Some((Seq::empty(), p))
    } else {
        match strings_at(d, p, (n - 1) as nat) {
            None => None,
            Some((bs, q)) => match string_at(d, q) {
                None => None,
                Some((b, r)) => Some((bs.push(b), r)),
            },
        }
    }
}

/// Each of the first `n` strings at `p` that is all there is UTF-8.
pub open spec fn strings_readable(d: Seq<u8>, p: int, n: nat) -> bool {
    forall|i: nat|
        i < n ==> (#[trigger] strings_at(d, p, i) matches Some((_, q)) ==> (string_at(
            d,
            q,
        ) matches Some((b, _)) ==> valid_utf8(b)))
}

/// The string table at `p`: its maximum size, the bytes of its strings, and the
/// position after it.
pub open spec fn string_table_at(d: Seq<u8>, p: int) -> Option<((u16, Seq<Seq<u8>>), int)> {
    if p + 8 <= d.len() {
        match strings_at(d, p + 8, le_at(d, p + 2, 2)) {
            Some((bs, q)) => Some(((le_at(d, p, 2) as u16, bs), q)),
            None => None,
        }
    } else {
        None
    }
}

/// The strings of the string table at `p` are UTF-8.
pub open spec fn string_table_readable(d: Seq<u8>, p: int) -> bool {
    p + 8 <= d.len() ==> strings_readable(d, p + 8, le_at(d, p + 2, 2))
}

/// The bytes of a sequence of strings, each with its length.
pub open spec fn strings_bytes(s: Seq<Seq<char>>) -> Seq<u8>
    decreases s.len(),
{
    if s.len() == 0 {
        Seq::empty()
    } else {
        strings_bytes(s.drop_last()) + le_bytes(encode_utf8(s.last()).len(), 4) + encode_utf8(
            s.last(),
        )
    }
}

/// The bytes of a string table.
pub open spec fn string_table_bytes(max_strings: u16, s: Seq<Seq<char>>) -> Seq<u8> {
    le_bytes(max_strings as nat, 2) + le_bytes(s.len(), 2) + le_bytes(0, 4) + strings_bytes(s)
}

/// A string that is not all there stops the reading of later strings too.
proof fn lemma_strings_at_stuck(d: Seq<u8>, p: int, i: nat, n: nat)
    requires
        i < n,
        strings_at(d, p, i) matches Some((_, q)) && string_at(d, q) is None,
    ensures
        strings_at(d, p, n) is None,
    decreases n,
{
    if n > i + 1 {
        lemma_strings_at_stuck(d, p, i, (n - 1) as nat);
    }
}

impl StringTable {
    /// An empty table for at most `max_strings` strings.
    pub fn new(max_strings: u16) -> (t: Self)
        ensures
            t@ == (max_strings, Seq::<Seq<char>>::empty()),
    {
        let t = StringTable { max_strings, strings: Vec::new() };
        assert(texts(t.strings@) =~= Seq::<Seq<char>>::empty());
        t
    }

    /// Read a string table.
    pub fn read_from(input: &[u8], pos: usize) -> (r: Result<(Self, usize), ReadError>)
        requires
            string_table_readable(input@, pos as int),
        ensures
            match string_table_at(input@, pos as int) {
                Some(((max, bs), q)) => r matches Ok((t, p)) && t@.0 == max && t@.1 == bs.map_values(
                    |b: Seq<u8>| decode_utf8(b),
                ) && p == q,
                None => r == Err::<(Self, usize), ReadError>(ReadError::UnexpectedEof),
            },
    {
        let (max_strings, p) = read_u16_le(input, pos)?;
        let (num_strings, p) = read_u16_le(input, p)?;
        let (_ptr, p) = read_u32_le(input, p)?;
        let ghost d = input@;
        let ghost start = p as int;
        let ghost n = num_strings as nat;
        let mut strings: Vec<String> = Vec::new();
        let mut p = p;
        let mut i: u16 = 0;
        while i < num_strings
            invariant
                d == input@,
                n == num_strings,
                start == pos + 8,
                pos + 8 <= input.len(),
                n == le_at(d, pos + 2, 2),
                max_strings == le_at(d, pos as int, 2),
                strings_readable(d, start, n),
                i <= num_strings,
                strings_at(d, start, i as nat) matches Some((bs, q)) && q == p && texts(strings@)
                    == bs.map_values(|b: Seq<u8>| decode_utf8(b)),
            decreases num_strings - i,
        {
            let ghost prev = strings_at(d, start, i as nat);
            let (length, q) = match read_u32_le(input, p) {
                Ok(x) => x,
                Err(e) => {
                    proof {
                        lemma_strings_at_stuck(d, start, i as nat, n);
                    }
                    return Err(e);
                },
            };
            let (bytes, q) = match read_bytes(input, q, length as usize) {
                Ok(x) => x,
                Err(e) => {
                    proof {
                        lemma_strings_at_stuck(d, start, i as nat, n);
                    }
                    return Err(e);
                },
            };
            assert(strings_at(d, start, i as nat) matches Some((_, q)) && string_at(d, q) matches Some(
                (b, _),
            ) && b == bytes@);
            let text = match decode_utf8_text(bytes.as_slice()) {
                Some(t) => t,
                None => {
                    assert(false);
                    return Err(ReadError::InvalidData);
                },
            };
            let ghost before = strings@;
            strings.push(text.to_owned());
            proof {
                let bs = prev->Some_0.0;
                assert(strings_at(d, start, (i + 1) as nat) == Some((bs.push(bytes@), q as int)));
                assert(texts(strings@) =~= texts(before).push(decode_utf8(bytes@)));
                assert(bs.push(bytes@).map_values(|b: Seq<u8>| decode_utf8(b)) =~= bs.map_values(
                    |b: Seq<u8>| decode_utf8(b),
                ).push(decode_utf8(bytes@)));
            }
            p = q;
            i = i + 1;
        }
        Ok((StringTable { max_strings, strings }, p))
    }

    /// Write this string table.
    pub fn write_to(&self, out: &mut Vec<u8>)
        requires
            self@.1.len() < u16::MAX,
            forall|i: int| 0 <= i < self@.1.len() ==> encode_utf8(#[trigger] self@.1[i]).len() < u32::MAX,
        ensures
            final(out)@ == old(out)@ + string_table_bytes(self@.0, self@.1),
    {
        proof {
            lemma_pow256_values();
        }
        put_u16_le(out, self.max_strings);
        put_u16_le(out, self.num_strings());
        put_u32_le(out, 0);
        let ghost head = out@;
        let mut i: usize = 0;
        while i < self.strings.len()
            invariant
                i <= self.strings.len(),
                forall|j: int|
                    0 <= j < self@.1.len() ==> encode_utf8(#[trigger] self@.1[j]).len() < u32::MAX,
                self@.1 == texts(self.strings@),
                out@ == head + strings_bytes(self@.1.take(i as int)),
            decreases self.strings.len() - i,
        {
            let bytes = self.strings[i].as_str().as_bytes();
            assert(self@.1[i as int] == self.strings@[i as int]@);
            put_u32_le(out, bytes.len() as u32);
            push_bytes(out, bytes);
            proof {
                let s = self@.1;
                assert(s.take(i + 1).drop_last() =~= s.take(i as int));
                assert(s.take(i + 1).last() == s[i as int]);
            }
            i = i + 1;
        }
        assert(self@.1.take(self.strings.len() as int) =~= self@.1);
        assert(out@ =~= old(out)@ + string_table_bytes(self@.0, self@.1));
    }

    /// The maximum number of strings.
    pub fn max_strings(&self) -> (m: u16)
        ensures
            m == self@.0,
    {
        self.max_strings
    }

    /// The number of strings.
    pub fn num_strings(&self) -> (n: u16)
        requires
            self@.1.len() < u16::MAX,
        ensures
            n == self@.1.len(),
    {
        self.strings.len() as u16
    }

    /// The strings.
    pub fn strings(&self) -> (v: &Vec<String>)
        ensures
            texts(v@) == self@.1,
    {
        &self.strings
    }
}


proof fn lemma_strings_bytes_concat(a: Seq<Seq<char>>, b: Seq<Seq<char>>)
    ensures
        strings_bytes(a + b) == strings_bytes(a) + strings_bytes(b),
    decreases b.len(),
{
    if b.len() == 0 {
        assert(a + b =~= a);
        assert(strings_bytes(a) + Seq::<u8>::empty() =~= strings_bytes(a));
    } else {
        assert((a + b).drop_last() =~= a + b.drop_last());
        assert((a + b).last() == b.last());
        lemma_strings_bytes_concat(a, b.drop_last());
        assert(strings_bytes(a + b) =~= strings_bytes(a) + strings_bytes(b));
    }
}

proof fn lemma_strings_read_of_write(pre: Seq<u8>, s: Seq<Seq<char>>, post: Seq<u8>)
    requires
        forall|i: int| 0 <= i < s.len() ==> encode_utf8(#[trigger] s[i]).len() < 0x1_0000_0000,
    ensures
        strings_at(pre + strings_bytes(s) + post, pre.len() as int, s.len()) == Some(
            (
                s.map_values(|t: Seq<char>| encode_utf8(t)),
                (pre.len() + strings_bytes(s).len()) as int,
            ),
        ),
    decreases s.len(),
{
    if s.len() == 0 {
        assert(s.map_values(|t: Seq<char>| encode_utf8(t)) =~= Seq::<Seq<u8>>::empty());
    } else {
        lemma_pow256_values();
        let init = s.drop_last();
        let e = encode_utf8(s.last());
        let n = e.len();
        assert(s.last() == s[s.len() - 1]);
        lemma_le_bytes_len(n, 4);
        let d = pre + strings_bytes(s) + post;
        assert(forall|i: int| 0 <= i < init.len() ==> #[trigger] init[i] == s[i]);
        assert(d =~= pre + strings_bytes(init) + (le_bytes(n, 4) + e + post));
        lemma_strings_read_of_write(pre, init, le_bytes(n, 4) + e + post);
        let q = (pre.len() + strings_bytes(init).len()) as int;
        assert(d =~= (pre + strings_bytes(init)) + le_bytes(n, 4) + (e + post));
        law_le_read_of_write(pre + strings_bytes(init), n, 4, e + post);
        assert(d.subrange(q + 4, q + 4 + n as int) =~= e);
        assert(s.map_values(|t: Seq<char>| encode_utf8(t)) =~= init.map_values(
            |t: Seq<char>| encode_utf8(t),
        ).push(e));
    }
}

/// A string table that was written reads back with the same capacity and strings.
pub proof fn law_string_table_read_of_write(max_strings: u16, s: Seq<Seq<char>>, post: Seq<u8>)
    requires
        s.len() < 0x1_0000,
        forall|i: int| 0 <= i < s.len() ==> encode_utf8(#[trigger] s[i]).len() < 0x1_0000_0000,
    ensures
        string_table_readable(string_table_bytes(max_strings, s) + post, 0),
        string_table_at(string_table_bytes(max_strings, s) + post, 0) matches Some(
            ((m, bs), q),
        ) && m == max_strings && bs.map_values(|b: Seq<u8>| decode_utf8(b)) == s && q
            == string_table_bytes(max_strings, s).len(),
{
    broadcast use vstd::utf8::encode_utf8_decode_utf8, vstd::utf8::encode_utf8_valid_utf8;

    lemma_pow256_values();
    lemma_le_bytes_len(max_strings as nat, 2);
    lemma_le_bytes_len(s.len(), 2);
    lemma_le_bytes_len(0, 4);
    let d = string_table_bytes(max_strings, s) + post;
    let h2 = le_bytes(max_strings as nat, 2);
    let h4 = le_bytes(s.len(), 2);
    let h8 = h2 + h4 + le_bytes(0, 4);
    assert(d =~= Seq::<u8>::empty() + h2 + (h4 + le_bytes(0, 4) + strings_bytes(s) + post));
    law_le_read_of_write(Seq::empty(), max_strings as nat, 2, h4 + le_bytes(0, 4) + strings_bytes(s) + post);
    assert(d =~= h2 + h4 + (le_bytes(0, 4) + strings_bytes(s) + post));
    law_le_read_of_write(h2, s.len(), 2, le_bytes(0, 4) + strings_bytes(s) + post);
    assert(d =~= h8 + strings_bytes(s) + post);
    lemma_strings_read_of_write(h8, s, post);
    let bs = s.map_values(|t: Seq<char>| encode_utf8(t));
    assert(bs.map_values(|b: Seq<u8>| decode_utf8(b)) =~= s);
    lemma_strings_readable(h8, s, post);
}

proof fn lemma_strings_readable(pre: Seq<u8>, s: Seq<Seq<char>>, post: Seq<u8>)
    requires
        forall|i: int| 0 <= i < s.len() ==> encode_utf8(#[trigger] s[i]).len() < 0x1_0000_0000,
    ensures
        strings_readable(pre + strings_bytes(s) + post, pre.len() as int, s.len()),
{
    broadcast use vstd::utf8::encode_utf8_valid_utf8;

    lemma_pow256_values();
    let d = pre + strings_bytes(s) + post;
    let p = pre.len() as int;
    assert forall|i: nat| i < s.len() implies (#[trigger] strings_at(d, p, i) matches Some((_, q))
        ==> (string_at(d, q) matches Some((b, _)) ==> valid_utf8(b))) by {
        let a = s.take(i as int);
        let rest = s.skip(i as int);
        assert(a + rest =~= s);
        lemma_strings_bytes_concat(a, rest);
        let one = seq![s[i as int]];
        assert(rest =~= one + s.skip(i + 1int));
        lemma_strings_bytes_concat(one, s.skip(i + 1int));
        assert(one.drop_last() =~= Seq::<Seq<char>>::empty());
        assert(one.last() == s[i as int]);
        let e = encode_utf8(s[i as int]);
        assert(strings_bytes(one.drop_last()) == Seq::<u8>::empty());
        assert(strings_bytes(one) =~= le_bytes(e.len(), 4) + e);
        assert(d =~= pre + strings_bytes(a) + (strings_bytes(rest) + post));
        assert forall|j: int| 0 <= j < a.len() implies encode_utf8(#[trigger] a[j]).len()
            < 0x1_0000_0000 by {
            assert(a[j] == s[j]);
        }
        lemma_strings_read_of_write(pre, a, strings_bytes(rest) + post);
        let q = (pre.len() + strings_bytes(a).len()) as int;
        lemma_le_bytes_len(e.len(), 4);
        assert(d =~= (pre + strings_bytes(a)) + le_bytes(e.len(), 4) + (e + strings_bytes(
            s.skip(i + 1int),
        ) + post));
        law_le_read_of_write(pre + strings_bytes(a), e.len(), 4, e + strings_bytes(s.skip(i + 1int)) + post);
        assert(d.subrange(q + 4, q + 4 + e.len() as int) =~= e);
    }
}

} // verus!
