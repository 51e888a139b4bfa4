//! Fixed-width integer encodings used by every file format of the library.
//!
//! Values are modelled as natural numbers; a little-endian encoding of `k` bytes
//! is `le_bytes(n, k)` and the value of a byte sequence is `le_value(s)`.
//! Big-endian is the reverse of little-endian.
use vstd::arithmetic::div_mod::{
    lemma_breakdown, lemma_div_denominator, lemma_fundamental_div_mod_converse,
};
use vstd::prelude::*;

verus! {

/// `256` to the power `k`.
pub open spec fn pow256(k: nat) -> nat
    decreases k,
{
    if k == 0 {
        1
    } else {
        256 * pow256((k - 1) as nat)
    }
}

/// The unsigned value of `s` read as a little-endian number.
pub open spec fn le_value(s: Seq<u8>) -> nat
    decreases s.len(),
{
    if s.len() == 0 {
        0
    } else {
        s[0] as nat + 256 * le_value(s.drop_first())
    }
}

/// The `k` low-order bytes of `n`, least significant first.
pub open spec fn le_bytes(n: nat, k: nat) -> Seq<u8>
    decreases k,
{
    if k == 0 {
        Seq::empty()
    } else {
        seq![(n % 256) as u8] + le_bytes(n / 256, (k - 1) as nat)
    }
}

/// `s` in reverse order.
pub open spec fn reversed(s: Seq<u8>) -> Seq<u8> {
    Seq::new(s.len(), |i: int| s[s.len() - 1 - i])
}

/// The unsigned value of `s` read as a big-endian number.
pub open spec fn be_value(s: Seq<u8>) -> nat {
    le_value(reversed(s))
}

/// The `k` low-order bytes of `n`, most significant first.
pub open spec fn be_bytes(n: nat, k: nat) -> Seq<u8> {
    reversed(le_bytes(n, k))
}

/// Two's complement reading of an unsigned `k`-byte value.
pub open spec fn signed_of(u: nat, k: nat) -> int {
    if u < pow256(k) / 2 {
        u as int
    } else {
        u - pow256(k)
    }
}

/// Two's complement bit pattern of a signed value, as an unsigned `k`-byte value.
pub open spec fn unsigned_of(n: int, k: nat) -> nat {
    if n < 0 {
        (n + pow256(k)) as nat
    } else {
        n as nat
    }
}

/// The `k` bytes of `data` starting at `pos`, as a little-endian number.
pub open spec fn le_at(data: Seq<u8>, pos: int, k: nat) -> nat {
    le_value(data.subrange(pos, pos + k))
}

/// The `k` bytes of `data` starting at `pos`, as a big-endian number.
pub open spec fn be_at(data: Seq<u8>, pos: int, k: nat) -> nat {
    be_value(data.subrange(pos, pos + k))
}

pub proof fn lemma_pow256_positive(k: nat)
    ensures
        pow256(k) >= 1,
        k >= 1 ==> pow256(k) >= 256,
    decreases k,
{
    if k > 0 {
        lemma_pow256_positive((k - 1) as nat);
    }
}

pub proof fn lemma_pow256_values()
    ensures
        pow256(1) == 0x100,
        pow256(2) == 0x1_0000,
        pow256(3) == 0x100_0000,
        pow256(4) == 0x1_0000_0000,
        pow256(8) == 0x1_0000_0000_0000_0000,
        pow256(16) == 0x1_0000_0000_0000_0000_0000_0000_0000_0000,
{
    reveal_with_fuel(pow256, 17);
}

pub proof fn lemma_pow256_monotone(a: nat, b: nat)
    requires
        a <= b,
    ensures
        pow256(a) <= pow256(b),
    decreases b,
{
    if a < b {
        lemma_pow256_monotone(a, (b - 1) as nat);
        lemma_pow256_positive((b - 1) as nat);
    }
}

pub proof fn lemma_le_value_bound(s: Seq<u8>)
    ensures
        le_value(s) < pow256(s.len()),
    decreases s.len(),
{
    if s.len() > 0 {
        lemma_le_value_bound(s.drop_first());
    }
}

pub proof fn lemma_le_bytes_len(n: nat, k: nat)
    ensures
        le_bytes(n, k).len() == k,
    decreases k,
{
    if k > 0 {
        lemma_le_bytes_len(n / 256, (k - 1) as nat);
    }
}

/// Decoding an encoding gives back the value, modulo the width.
pub proof fn lemma_le_value_of_bytes(n: nat, k: nat)
    ensures
        le_value(le_bytes(n, k)) == n % pow256(k),
    decreases k,
{
    if k == 0 {
    } else {
        let rest = le_bytes(n / 256, (k - 1) as nat);
        lemma_le_value_of_bytes(n / 256, (k - 1) as nat);
        assert(le_bytes(n, k).drop_first() =~= rest);
        lemma_pow256_positive((k - 1) as nat);
        lemma_breakdown(n as int, 256, pow256((k - 1) as nat) as int);
    }
}

/// Encoding the value of a byte sequence gives back the sequence.
pub proof fn lemma_le_bytes_of_value(s: Seq<u8>)
    ensures
        le_bytes(le_value(s), s.len()) =~= s,
    decreases s.len(),
{
    if s.len() > 0 {
        let v = le_value(s);
        let r = le_value(s.drop_first());
        lemma_fundamental_div_mod_converse(v as int, 256, r as int, s[0] as int);
        lemma_le_bytes_of_value(s.drop_first());
        assert(le_bytes(v, s.len()) =~= seq![s[0]] + le_bytes(r, (s.len() - 1) as nat));
    }
}

/// Width-`k` encoding is exact on values below `256^k`.
pub proof fn lemma_le_roundtrip(n: nat, k: nat)
    requires
        n < pow256(k),
    ensures
        le_value(le_bytes(n, k)) == n,
        le_bytes(n, k).len() == k,
{
    lemma_le_value_of_bytes(n, k);
    lemma_le_bytes_len(n, k);
    vstd::arithmetic::div_mod::lemma_small_mod(n, pow256(k));
}

/// Appending one more byte on the high end.
pub proof fn lemma_le_bytes_step(n: nat, k: nat)
    ensures
        le_bytes(n, k + 1) =~= le_bytes(n, k) + seq![((n / pow256(k)) % 256) as u8],
    decreases k,
{
    if k == 0 {
        assert(pow256(0) == 1);
        assert(n / 1 == n);
        assert(le_bytes(n / 256, 0) =~= Seq::<u8>::empty());
        assert(le_bytes(n, 1) =~= seq![(n % 256) as u8]);
    } else {
        lemma_le_bytes_step(n / 256, (k - 1) as nat);
        assert(pow256(k) == 256 * pow256((k - 1) as nat));
        lemma_pow256_positive((k - 1) as nat);
        lemma_div_denominator(n as int, 256, pow256((k - 1) as nat) as int);
    }
}

pub proof fn lemma_reversed_reversed(s: Seq<u8>)
    ensures
        reversed(reversed(s)) =~= s,
        reversed(s).len() == s.len(),
{
}

pub proof fn lemma_be_roundtrip(n: nat, k: nat)
    requires
        n < pow256(k),
    ensures
        be_value(be_bytes(n, k)) == n,
        be_bytes(n, k).len() == k,
{
    lemma_le_roundtrip(n, k);
    lemma_reversed_reversed(le_bytes(n, k));
}

pub proof fn lemma_be_bytes_of_value(s: Seq<u8>)
    ensures
        be_bytes(be_value(s), s.len()) =~= s,
        be_value(s) < pow256(s.len()),
{
    lemma_le_bytes_of_value(reversed(s));
    lemma_le_value_bound(reversed(s));
    lemma_reversed_reversed(s);
}

/// Different values of one width have different encodings.
pub proof fn lemma_le_bytes_injective(a: nat, b: nat, k: nat)
    requires
        a < pow256(k),
        b < pow256(k),
        le_bytes(a, k) == le_bytes(b, k),
    ensures
        a == b,
{
    lemma_le_roundtrip(a, k);
    lemma_le_roundtrip(b, k);
}

pub proof fn lemma_signed_roundtrip(n: int, k: nat)
    requires
        k >= 1,
        -(pow256(k) / 2) <= n < pow256(k) / 2,
    ensures
        unsigned_of(n, k) < pow256(k),
        signed_of(unsigned_of(n, k), k) == n,
{
    lemma_pow256_positive(k);
}

pub proof fn lemma_unsigned_roundtrip(u: nat, k: nat)
    requires
        k >= 1,
        u < pow256(k),
    ensures
        unsigned_of(signed_of(u, k), k) == u,
        -(pow256(k) / 2) <= signed_of(u, k) < pow256(k) / 2,
{
    lemma_pow256_positive(k);
    assert(pow256(k) % 2 == 0) by {
        assert(pow256(k) == 256 * pow256((k - 1) as nat));
    }
}


/// A little-endian field reads back the value that was written, wherever it stands in a buffer.
pub proof fn law_le_read_of_write(prefix: Seq<u8>, n: nat, k: nat, suffix: Seq<u8>)
    requires
        n < pow256(k),
    ensures
        le_at(prefix + le_bytes(n, k) + suffix, prefix.len() as int, k) == n,
{
    lemma_le_roundtrip(n, k);
    assert((prefix + le_bytes(n, k) + suffix).subrange(
        prefix.len() as int,
        prefix.len() + k as int,
    ) =~= le_bytes(n, k));
}

/// A big-endian field reads back the value that was written, wherever it stands in a buffer.
pub proof fn law_be_read_of_write(prefix: Seq<u8>, n: nat, k: nat, suffix: Seq<u8>)
    requires
        n < pow256(k),
    ensures
        be_at(prefix + be_bytes(n, k) + suffix, prefix.len() as int, k) == n,
{
    lemma_be_roundtrip(n, k);
    assert((prefix + be_bytes(n, k) + suffix).subrange(
        prefix.len() as int,
        prefix.len() + k as int,
    ) =~= be_bytes(n, k));
}

/// A signed little-endian field reads back the value that was written.
pub proof fn law_signed_le_read_of_write(prefix: Seq<u8>, n: int, k: nat, suffix: Seq<u8>)
    requires
        k >= 1,
        -(pow256(k) / 2) <= n < pow256(k) / 2,
    ensures
        signed_of(le_at(prefix + le_bytes(unsigned_of(n, k), k) + suffix, prefix.len() as int, k), k)
            == n,
{
    lemma_signed_roundtrip(n, k);
    law_le_read_of_write(prefix, unsigned_of(n, k), k, suffix);
}

/// A signed big-endian field reads back the value that was written.
pub proof fn law_signed_be_read_of_write(prefix: Seq<u8>, n: int, k: nat, suffix: Seq<u8>)
    requires
        k >= 1,
        -(pow256(k) / 2) <= n < pow256(k) / 2,
    ensures
        signed_of(be_at(prefix + be_bytes(unsigned_of(n, k), k) + suffix, prefix.len() as int, k), k)
            == n,
{
    lemma_signed_roundtrip(n, k);
    law_be_read_of_write(prefix, unsigned_of(n, k), k, suffix);
}

/// The bytes of a field are exactly the encoding of the value read from them.
pub proof fn law_le_write_of_read(data: Seq<u8>, pos: int, k: nat)
    requires
        0 <= pos,
        pos + k <= data.len(),
    ensures
        le_bytes(le_at(data, pos, k), k) == data.subrange(pos, pos + k),
{
    lemma_le_bytes_of_value(data.subrange(pos, pos + k));
}

/// Errors of the byte-level readers.
#[derive(Debug, Clone, Copy, PartialEq, Eq)]
pub enum ReadError {
    /// The input ended before the value that was being read.
    UnexpectedEof,
    /// The input is not in the expected format, or could not be decompressed.
    InvalidData,
}

/// Reads `k` bytes at `pos` as a little-endian number.
pub fn get_le(buf: &[u8], pos: usize, k: usize) -> (r: u128)
    requires
        k <= 16,
        pos + k <= buf.len(),
    ensures
        r == le_at(buf@, pos as int, k as nat),
        r < pow256(k as nat),
{
    let mut r: u128 = 0;
    let mut i: usize = k;
    proof {
        lemma_pow256_values();
    }
    while i > 0
        invariant
            i <= k,
            k <= 16,
            pos + k <= buf.len(),
            r == le_value(buf@.subrange(pos + i, pos + k)),
            r < pow256((k - i) as nat),
            pow256(16) == 0x1_0000_0000_0000_0000_0000_0000_0000_0000,
        decreases i,
    {
        let ghost old_r = r;
        i = i - 1;
        proof {
            assert(buf@.subrange(pos + i, pos + k).drop_first() =~= buf@.subrange(
                pos + i + 1,
                pos + k,
            ));
            lemma_pow256_monotone((k - i - 1) as nat, 15);
            assert(pow256(16) == 256 * pow256(15));
        }
        r = buf[pos + i] as u128 + 256 * r;
    }
    proof {
        lemma_le_value_bound(buf@.subrange(pos as int, pos + k));
    }
    r
}

/// Reads `k` bytes at `pos` as a big-endian number.
pub fn get_be(buf: &[u8], pos: usize, k: usize) -> (r: u128)
    requires
        k <= 16,
        pos + k <= buf.len(),
    ensures
        r == be_at(buf@, pos as int, k as nat),
        r < pow256(k as nat),
{
    let mut r: u128 = 0;
    let mut i: usize = 0;
    proof {
        lemma_pow256_values();
    }
    while i < k
        invariant
            i <= k,
            k <= 16,
            pos + k <= buf.len(),
            r == be_value(buf@.subrange(pos as int, pos + i)),
            r < pow256(i as nat),
            pow256(16) == 0x1_0000_0000_0000_0000_0000_0000_0000_0000,
        decreases k - i,
    {
        let b = buf[pos + i];
        proof {
            let s = buf@.subrange(pos as int, pos + i);
            assert(buf@.subrange(pos as int, pos + i + 1) =~= s.push(b));
            assert(reversed(s.push(b)).drop_first() =~= reversed(s));
            assert(reversed(s.push(b))[0] == b);
            lemma_pow256_monotone(i as nat, 15);
            assert(pow256(16) == 256 * pow256(15));
        }
        r = b as u128 + 256 * r;
        i = i + 1;
    }
    proof {
        lemma_be_bytes_of_value(buf@.subrange(pos as int, pos + k));
    }
    r
}

/// Appends the `k`-byte little-endian encoding of `v`.
pub fn put_le(out: &mut Vec<u8>, v: u128, k: usize)
    requires
        k <= 16,
        v < pow256(k as nat),
    ensures
        final(out)@ == old(out)@ + le_bytes(v as nat, k as nat),
{
    let mut i: usize = 0;
    let mut n: u128 = v;
    assert(old(out)@ + le_bytes(v as nat, 0) =~= old(out)@);
    assert(pow256(0) == 1);
    assert(v as nat / 1 == v);
    while i < k
        invariant
            i <= k,
            n == v as nat / pow256(i as nat),
            out@ == old(out)@ + le_bytes(v as nat, i as nat),
        decreases k - i,
    {
        proof {
            lemma_le_bytes_step(v as nat, i as nat);
            lemma_pow256_positive(i as nat);
            lemma_div_denominator(v as int, pow256(i as nat) as int, 256);
            assert(pow256((i + 1) as nat) == pow256(i as nat) * 256) by (nonlinear_arith)
                requires
                    pow256((i + 1) as nat) == 256 * pow256(i as nat),
            ;
        }
        out.push((n % 256) as u8);
        n = n / 256;
        i = i + 1;
        assert(out@ =~= old(out)@ + le_bytes(v as nat, i as nat));
    }
}

/// Appends the `k`-byte big-endian encoding of `v`.
pub fn put_be(out: &mut Vec<u8>, v: u128, k: usize)
    requires
        k <= 16,
        v < pow256(k as nat),
    ensures
        final(out)@ == old(out)@ + be_bytes(v as nat, k as nat),
{
    let mut tmp: Vec<u8> = Vec::new();
    put_le(&mut tmp, v, k);
    proof {
        lemma_le_bytes_len(v as nat, k as nat);
    }
    let mut i: usize = k;
    assert(old(out)@ + reversed(tmp@).take(0) =~= old(out)@);
    while i > 0
        invariant
            i <= k,
            tmp@ == le_bytes(v as nat, k as nat),
            tmp@.len() == k,
            out@ == old(out)@ + reversed(tmp@).take((k - i) as int),
        decreases i,
    {
        i = i - 1;
        out.push(tmp[i]);
        assert(out@ =~= old(out)@ + reversed(tmp@).take((k - i) as int));
    }
    assert(reversed(tmp@).take(k as int) =~= reversed(tmp@));
}


/// Reads `k` little-endian bytes at `pos`, returning the value and the position after it.
pub fn read_le(data: &[u8], pos: usize, k: usize) -> (r: Result<(u128, usize), ReadError>)
    requires
        k <= 16,
    ensures
        r is Ok <==> pos + k <= data.len(),
        r matches Ok((v, p)) ==> v == le_at(data@, pos as int, k as nat) && p == pos + k && v
            < pow256(k as nat),
        r matches Err(e) ==> e == ReadError::UnexpectedEof,
{
    if pos <= data.len() && k <= data.len() - pos {
        Ok((get_le(data, pos, k), pos + k))
    } else {
        Err(ReadError::UnexpectedEof)
    }
}

pub fn read_u8(data: &[u8], pos: usize) -> (r: Result<(u8, usize), ReadError>)
    ensures
        r is Ok <==> pos + 1 <= data.len(),
        r matches Ok((v, p)) ==> v == data@[pos as int] && p == pos + 1,
        r matches Err(e) ==> e == ReadError::UnexpectedEof,
{
    if pos < data.len() {
        Ok((data[pos], pos + 1))
    } else {
        Err(ReadError::UnexpectedEof)
    }
}

pub fn read_i8(data: &[u8], pos: usize) -> (r: Result<(i8, usize), ReadError>)
    ensures
        r is Ok <==> pos + 1 <= data.len(),
        r matches Ok((v, p)) ==> v == signed_of(data@[pos as int] as nat, 1) && p == pos + 1,
        r matches Err(e) ==> e == ReadError::UnexpectedEof,
{
    proof {
        lemma_pow256_values();
    }
    if pos < data.len() {
        let b = data[pos];
        let v: i8 = if b < 128 { b as i8 } else { (b as i16 - 256) as i8 };
        Ok((v, pos + 1))
    } else {
        Err(ReadError::UnexpectedEof)
    }
}

pub fn read_u16_le(data: &[u8], pos: usize) -> (r: Result<(u16, usize), ReadError>)
    ensures
        r is Ok <==> pos + 2 <= data.len(),
        r matches Ok((v, p)) ==> v == le_at(data@, pos as int, 2) && p == pos + 2,
        r matches Err(e) ==> e == ReadError::UnexpectedEof,
{
    proof {
        lemma_pow256_values();
    }
    let (v, p) = read_le(data, pos, 2)?;
    Ok((v as u16, p))
}

pub fn read_u32_le(data: &[u8], pos: usize) -> (r: Result<(u32, usize), ReadError>)
    ensures
        r is Ok <==> pos + 4 <= data.len(),
        r matches Ok((v, p)) ==> v == le_at(data@, pos as int, 4) && p == pos + 4,
        r matches Err(e) ==> e == ReadError::UnexpectedEof,
{
    proof {
        lemma_pow256_values();
    }
    let (v, p) = read_le(data, pos, 4)?;
    Ok((v as u32, p))
}

pub fn read_u64_le(data: &[u8], pos: usize) -> (r: Result<(u64, usize), ReadError>)
    ensures
        r is Ok <==> pos + 8 <= data.len(),
        r matches Ok((v, p)) ==> v == le_at(data@, pos as int, 8) && p == pos + 8,
        r matches Err(e) ==> e == ReadError::UnexpectedEof,
{
    proof {
        lemma_pow256_values();
    }
    let (v, p) = read_le(data, pos, 8)?;
    Ok((v as u64, p))
}

pub fn read_i16_le(data: &[u8], pos: usize) -> (r: Result<(i16, usize), ReadError>)
    ensures
        r is Ok <==> pos + 2 <= data.len(),
        r matches Ok((v, p)) ==> v == signed_of(le_at(data@, pos as int, 2), 2) && p == pos + 2,
        r matches Err(e) ==> e == ReadError::UnexpectedEof,
{
    proof {
        lemma_pow256_values();
    }
    let (v, p) = read_le(data, pos, 2)?;
    let s: i16 = if v < 0x8000 { v as i16 } else { (v as i32 - 0x10000) as i16 };
    Ok((s, p))
}

pub fn read_i32_le(data: &[u8], pos: usize) -> (r: Result<(i32, usize), ReadError>)
    ensures
        r is Ok <==> pos + 4 <= data.len(),
        r matches Ok((v, p)) ==> v == signed_of(le_at(data@, pos as int, 4), 4) && p == pos + 4,
        r matches Err(e) ==> e == ReadError::UnexpectedEof,
{
    proof {
        lemma_pow256_values();
    }
    let (v, p) = read_le(data, pos, 4)?;
    let s: i32 = if v < 0x8000_0000 { v as i32 } else { (v as i64 - 0x1_0000_0000) as i32 };
    Ok((s, p))
}

/// Copies `n` bytes starting at `pos`.
pub fn read_bytes(data: &[u8], pos: usize, n: usize) -> (r: Result<(Vec<u8>, usize), ReadError>)
    ensures
        r is Ok <==> pos + n <= data.len(),
        r matches Ok((v, p)) ==> v@ == data@.subrange(pos as int, pos + n) && p == pos + n,
        r matches Err(e) ==> e == ReadError::UnexpectedEof,
{
    if pos <= data.len() && n <= data.len() - pos {
        let mut v: Vec<u8> = Vec::with_capacity(n);
        let mut i: usize = 0;
        while i < n
            invariant
                i <= n,
                pos + n <= data.len(),
                v@ == data@.subrange(pos as int, pos + i),
            decreases n - i,
        {
            v.push(data[pos + i]);
            i = i + 1;
            assert(v@ =~= data@.subrange(pos as int, pos + i));
        }
        Ok((v, pos + n))
    } else {
        Err(ReadError::UnexpectedEof)
    }
}

/// Appends all of `bytes`.
pub fn push_bytes(out: &mut Vec<u8>, bytes: &[u8])
    ensures
        final(out)@ == old(out)@ + bytes@,
{
    let mut i: usize = 0;
    while i < bytes.len()
        invariant
            i <= bytes.len(),
            out@ == old(out)@ + bytes@.take(i as int),
        decreases bytes.len() - i,
    {
        out.push(bytes[i]);
        i = i + 1;
        assert(out@ =~= old(out)@ + bytes@.take(i as int));
    }
    assert(bytes@.take(bytes.len() as int) =~= bytes@);
}

/// Appends `n` zero bytes.
pub fn push_zeros(out: &mut Vec<u8>, n: usize)
    ensures
        final(out)@ == old(out)@ + Seq::new(n as nat, |i: int| 0u8),
{
    let mut i: usize = 0;
    while i < n
        invariant
            i <= n,
            out@ == old(out)@ + Seq::new(i as nat, |j: int| 0u8),
        decreases n - i,
    {
        out.push(0u8);
        i = i + 1;
        assert(out@ =~= old(out)@ + Seq::new(i as nat, |j: int| 0u8));
    }
}

pub fn put_u16_le(out: &mut Vec<u8>, v: u16)
    ensures
        final(out)@ == old(out)@ + le_bytes(v as nat, 2),
{
    proof {
        lemma_pow256_values();
    }
    put_le(out, v as u128, 2);
}

pub fn put_u32_le(out: &mut Vec<u8>, v: u32)
    ensures
        final(out)@ == old(out)@ + le_bytes(v as nat, 4),
{
    proof {
        lemma_pow256_values();
    }
    put_le(out, v as u128, 4);
}

pub fn put_u64_le(out: &mut Vec<u8>, v: u64)
    ensures
        final(out)@ == old(out)@ + le_bytes(v as nat, 8),
{
    proof {
        lemma_pow256_values();
    }
    put_le(out, v as u128, 8);
}

pub fn put_i16_le(out: &mut Vec<u8>, v: i16)
    ensures
        final(out)@ == old(out)@ + le_bytes(unsigned_of(v as int, 2), 2),
{
    proof {
        lemma_pow256_values();
    }
    let u: u16 = if v < 0 { (v as i32 + 0x10000) as u16 } else { v as u16 };
    put_le(out, u as u128, 2);
}

pub fn put_i32_le(out: &mut Vec<u8>, v: i32)
    ensures
        final(out)@ == old(out)@ + le_bytes(unsigned_of(v as int, 4), 4),
{
    proof {
        lemma_pow256_values();
    }
    let u: u32 = if v < 0 { (v as i64 + 0x1_0000_0000) as u32 } else { v as u32 };
    put_le(out, u as u128, 4);
}

pub fn put_i8(out: &mut Vec<u8>, v: i8)
    ensures
        final(out)@ == old(out)@ + seq![unsigned_of(v as int, 1) as u8],
{
    proof {
        lemma_pow256_values();
    }
    let u: u8 = if v < 0 { (v as i16 + 256) as u8 } else { v as u8 };
    out.push(u);
}


/// Appending is associative.
pub proof fn lemma_add_assoc(a: Seq<u8>, b: Seq<u8>, c: Seq<u8>)
    ensures
        a + b + c == a + (b + c),
{
    assert(a + b + c =~= a + (b + c));
}

/// The `u16` stored little-endian at `pos`.
pub open spec fn u16_at(data: Seq<u8>, pos: int) -> u16 {
    le_at(data, pos, 2) as u16
}

/// The `i16` stored little-endian at `pos`.
pub open spec fn i16_at(data: Seq<u8>, pos: int) -> i16 {
    signed_of(le_at(data, pos, 2), 2) as i16
}

/// The `u32` stored little-endian at `pos`.
pub open spec fn u32_at(data: Seq<u8>, pos: int) -> u32 {
    le_at(data, pos, 4) as u32
}

/// The `i32` stored little-endian at `pos`.
pub open spec fn i32_at(data: Seq<u8>, pos: int) -> i32 {
    signed_of(le_at(data, pos, 4), 4) as i32
}

/// The little-endian bytes of a `u16`.
pub open spec fn u16_bytes(v: u16) -> Seq<u8> {
    le_bytes(v as nat, 2)
}

/// The little-endian bytes of an `i16`.
pub open spec fn i16_bytes(v: i16) -> Seq<u8> {
    le_bytes(unsigned_of(v as int, 2), 2)
}

/// The little-endian bytes of a `u32`.
pub open spec fn u32_bytes(v: u32) -> Seq<u8> {
    le_bytes(v as nat, 4)
}

/// The little-endian bytes of an `i32`.
pub open spec fn i32_bytes(v: i32) -> Seq<u8> {
    le_bytes(unsigned_of(v as int, 4), 4)
}

/// The sizes of the typed fields.
pub proof fn lemma_field_lens()
    ensures
        forall|v: u16| #[trigger] u16_bytes(v).len() == 2,
        forall|v: i16| #[trigger] i16_bytes(v).len() == 2,
        forall|v: u32| #[trigger] u32_bytes(v).len() == 4,
        forall|v: i32| #[trigger] i32_bytes(v).len() == 4,
{
    assert forall|v: u16| #[trigger] u16_bytes(v).len() == 2 by {
        lemma_le_bytes_len(v as nat, 2);
    }
    assert forall|v: i16| #[trigger] i16_bytes(v).len() == 2 by {
        lemma_le_bytes_len(unsigned_of(v as int, 2), 2);
    }
    assert forall|v: u32| #[trigger] u32_bytes(v).len() == 4 by {
        lemma_le_bytes_len(v as nat, 4);
    }
    assert forall|v: i32| #[trigger] i32_bytes(v).len() == 4 by {
        lemma_le_bytes_len(unsigned_of(v as int, 4), 4);
    }
}

/// A `u16` field reads back the value written into it.
pub proof fn lemma_u16_field(data: Seq<u8>, pos: int, v: u16)
    requires
        0 <= pos,
        pos + 2 <= data.len(),
        data.subrange(pos, pos + 2) == u16_bytes(v),
    ensures
        u16_at(data, pos) == v,
{
    lemma_pow256_values();
    lemma_le_roundtrip(v as nat, 2);
}

/// An `i16` field reads back the value written into it.
pub proof fn lemma_i16_field(data: Seq<u8>, pos: int, v: i16)
    requires
        0 <= pos,
        pos + 2 <= data.len(),
        data.subrange(pos, pos + 2) == i16_bytes(v),
    ensures
        i16_at(data, pos) == v,
{
    lemma_pow256_values();
    lemma_signed_roundtrip(v as int, 2);
    lemma_le_roundtrip(unsigned_of(v as int, 2), 2);
}

/// A `u32` field reads back the value written into it.
pub proof fn lemma_u32_field(data: Seq<u8>, pos: int, v: u32)
    requires
        0 <= pos,
        pos + 4 <= data.len(),
        data.subrange(pos, pos + 4) == u32_bytes(v),
    ensures
        u32_at(data, pos) == v,
{
    lemma_pow256_values();
    lemma_le_roundtrip(v as nat, 4);
}

/// An `i32` field reads back the value written into it.
pub proof fn lemma_i32_field(data: Seq<u8>, pos: int, v: i32)
    requires
        0 <= pos,
        pos + 4 <= data.len(),
        data.subrange(pos, pos + 4) == i32_bytes(v),
    ensures
        i32_at(data, pos) == v,
{
    lemma_pow256_values();
    lemma_signed_roundtrip(v as int, 4);
    lemma_le_roundtrip(unsigned_of(v as int, 4), 4);
}


/// An optional `u16` stored at `pos`: `0xFFFF` stands for none.
pub open spec fn opt_u16_at(data: Seq<u8>, pos: int) -> Option<u16> {
    if u16_at(data, pos) == 0xFFFF {
        None
    } else {
        Some(u16_at(data, pos))
    }
}

/// The bytes of an optional `u16`: the value, or `0xFFFF` for none.
pub open spec fn opt_u16_bytes(v: Option<u16>) -> Seq<u8> {
    match v {
        Some(n) => u16_bytes(n),
        None => u16_bytes(0xFFFF),
    }
}

/// An optional `u32` stored at `pos`: `0xFFFF_FFFF` stands for none.
pub open spec fn opt_u32_at(data: Seq<u8>, pos: int) -> Option<u32> {
    if u32_at(data, pos) == 0xFFFF_FFFF {
        None
    } else {
        Some(u32_at(data, pos))
    }
}

/// The bytes of an optional `u32`: the value, or `0xFFFF_FFFF` for none.
pub open spec fn opt_u32_bytes(v: Option<u32>) -> Seq<u8> {
    match v {
        Some(n) => u32_bytes(n),
        None => u32_bytes(0xFFFF_FFFF),
    }
}

/// Reads an optional `u16` at `pos`, where `0xFFFF` stands for none.
pub fn read_opt_u16(data: &[u8], pos: usize) -> (r: Result<(Option<u16>, usize), ReadError>)
    ensures
        r is Ok <==> pos + 2 <= data.len(),
        r matches Ok((v, p)) ==> v == opt_u16_at(data@, pos as int) && p == pos + 2,
        r matches Err(e) ==> e == ReadError::UnexpectedEof,
{
    let (v, p) = read_u16_le(data, pos)?;
    if v == 0xFFFF {
        Ok((None, p))
    } else {
        Ok((Some(v), p))
    }
}

/// Reads an optional `u32` at `pos`, where `0xFFFF_FFFF` stands for none.
pub fn read_opt_u32(data: &[u8], pos: usize) -> (r: Result<(Option<u32>, usize), ReadError>)
    ensures
        r is Ok <==> pos + 4 <= data.len(),
        r matches Ok((v, p)) ==> v == opt_u32_at(data@, pos as int) && p == pos + 4,
        r matches Err(e) ==> e == ReadError::UnexpectedEof,
{
    let (v, p) = read_u32_le(data, pos)?;
    if v == 0xFFFF_FFFF {
        Ok((None, p))
    } else {
        Ok((Some(v), p))
    }
}

/// Appends an optional `u16`, writing `0xFFFF` for none.
pub fn put_opt_u16(out: &mut Vec<u8>, v: Option<u16>)
    ensures
        final(out)@ == old(out)@ + opt_u16_bytes(v),
{
    match v {
        Some(n) => put_u16_le(out, n),
        None => put_u16_le(out, 0xFFFF),
    }
}

/// Appends an optional `u32`, writing `0xFFFF_FFFF` for none.
pub fn put_opt_u32(out: &mut Vec<u8>, v: Option<u32>)
    ensures
        final(out)@ == old(out)@ + opt_u32_bytes(v),
{
    match v {
        Some(n) => put_u32_le(out, n),
        None => put_u32_le(out, 0xFFFF_FFFF),
    }
}

/// An optional `u16` field reads back the value written into it, unless that value is
/// `0xFFFF`, which reads back as none.
pub proof fn lemma_opt_u16_field(data: Seq<u8>, pos: int, v: Option<u16>)
    requires
        0 <= pos,
        pos + 2 <= data.len(),
        data.subrange(pos, pos + 2) == opt_u16_bytes(v),
        v != Some(0xFFFFu16),
    ensures
        opt_u16_at(data, pos) == v,
{
    match v {
        Some(n) => lemma_u16_field(data, pos, n),
        None => lemma_u16_field(data, pos, 0xFFFF),
    }
}

/// An optional `u32` field reads back the value written into it, unless that value is
/// `0xFFFF_FFFF`, which reads back as none.
pub proof fn lemma_opt_u32_field(data: Seq<u8>, pos: int, v: Option<u32>)
    requires
        0 <= pos,
        pos + 4 <= data.len(),
        data.subrange(pos, pos + 4) == opt_u32_bytes(v),
        v != Some(0xFFFF_FFFFu32),
    ensures
        opt_u32_at(data, pos) == v,
{
    match v {
        Some(n) => lemma_u32_field(data, pos, n),
        None => lemma_u32_field(data, pos, 0xFFFF_FFFF),
    }
}


/// The position of the first NUL in `b` from `i` on, or its length.
pub open spec fn nul_index(b: Seq<u8>, i: int) -> int
    decreases b.len() - i,
{
    if i >= b.len() {
        b.len() as int
    } else if b[i] == 0 {
        i
    } else {
        nul_index(b, i + 1)
    }
}

/// The bytes of `b` before its first NUL.
pub open spec fn until_nul(b: Seq<u8>) -> Seq<u8> {
    b.take(nul_index(b, 0))
}

pub proof fn lemma_nul_index_bounds(b: Seq<u8>, i: int)
    requires
        0 <= i <= b.len(),
    ensures
        i <= nul_index(b, i) <= b.len(),
        forall|j: int| i <= j < nul_index(b, i) ==> b[j] != 0,
        nul_index(b, i) < b.len() ==> b[nul_index(b, i)] == 0,
    decreases b.len() - i,
{
    if i < b.len() && b[i] != 0 {
        lemma_nul_index_bounds(b, i + 1);
    }
}

/// The bytes before the first NUL, or all of them when there is none.
pub fn bytes_until_nul(bytes: &[u8]) -> (r: Vec<u8>)
    ensures
        r@ == until_nul(bytes@),
{
    let mut end: usize = 0;
    while end < bytes.len()
        invariant
            end <= bytes.len(),
            forall|j: int| 0 <= j < end ==> bytes@[j] != 0,
        ensures
            end <= bytes.len(),
            forall|j: int| 0 <= j < end ==> bytes@[j] != 0,
            end == bytes.len() || bytes@[end as int] == 0,
        decreases bytes.len() - end,
    {
        if bytes[end] == 0 {
            break;
        }
        end = end + 1;
    }
    proof {
        lemma_nul_index_bounds(bytes@, 0);
        let n = nul_index(bytes@, 0);
        if end < n {
            assert(bytes@[end as int] != 0);
        }
        if n < end {
            assert(bytes@[n] == 0);
        }
        assert(end == n);
    }
    let mut text: Vec<u8> = Vec::new();
    let mut i: usize = 0;
    while i < end
        invariant
            end <= bytes.len(),
            i <= end,
            text@ == bytes@.take(i as int),
        decreases end - i,
    {
        text.push(bytes[i]);
        i = i + 1;
        assert(text@ =~= bytes@.take(i as int));
    }
    text
}

} // verus!
