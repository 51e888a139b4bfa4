//! String tables of the resources of language DLLs.
use crate::codec::{read_u16_le, u16_at};
use crate::lang::encoding::{decode_utf16le, utf16le_decode};
use crate::lang::lang_file::{LangFile, LoadError};
use crate::lang::string_key::{KeyView, StringKey};
use vstd::prelude::*;

verus! {

/// The strings of a string table block stored from `pos`, numbered from `index` on: each
/// is a count of UTF-16 units and that many units; an empty one only takes its number.
/// Gives the numbered strings read, as bytes, and whether the block ended cleanly (a count
/// cut short ends it with an error).
pub open spec fn pe_walk(d: Seq<u8>, pos: int, index: int) -> (Seq<(int, Seq<u8>)>, bool)
    decreases d.len() - pos,
{
    if pos >= d.len() || pos < 0 {
        (Seq::empty(), true)
    } else if pos + 2 > d.len() {
        (Seq::empty(), false)
    } else {
        let n = 2 * u16_at(d, pos);
        if pos + 2 + n > d.len() {
            // A string longer than what is left: reading it panics.
            (Seq::empty(), true)
        } else {
            let rest = pe_walk(d, pos + 2 + n, index + 1);
            if n == 0 {
                rest
            } else {
                (seq![(index, d.subrange(pos + 2, pos + 2 + n))] + rest.0, rest.1)
            }
        }
    }
}

/// Whether reading the block from `pos` panics: some string is longer than what is left.
pub open spec fn pe_walk_panics(d: Seq<u8>, pos: int) -> bool
    decreases d.len() - pos,
{
    if pos >= d.len() || pos < 0 || pos + 2 > d.len() {
        false
    } else {
        let n = 2 * u16_at(d, pos);
        if pos + 2 + n > d.len() {
            true
        } else {
            pe_walk_panics(d, pos + 2 + n)
        }
    }
}

/// A language map with the numbered strings added in order: each string that decodes
/// from UTF-16 without errors is stored under its number.
pub open spec fn add_pe_strings(m: Map<KeyView, Seq<char>>, s: Seq<(int, Seq<u8>)>) -> Map<KeyView, Seq<char>>
    decreases s.len(),
{
    if s.len() == 0 {
        m
    } else {
        let prev = add_pe_strings(m, s.drop_last());
        let (i, b) = s.last();
        if utf16le_decode(b).1 {
            prev
        } else {
            prev.insert(KeyView::Num(i as u32), utf16le_decode(b).0)
        }
    }
}

proof fn lemma_add_pe_strings_push(m: Map<KeyView, Seq<char>>, s: Seq<(int, Seq<u8>)>, x: (int, Seq<u8>))
    ensures
        add_pe_strings(m, s.push(x)) == (if utf16le_decode(x.1).1 {
            add_pe_strings(m, s)
        } else {
            add_pe_strings(m, s).insert(KeyView::Num(x.0 as u32), utf16le_decode(x.1).0)
        }),
{
    assert(s.push(x).drop_last() =~= s);
}

impl LangFile {
    /// Load the strings of a string table block of a DLL's resources, numbered from
    /// `index` on. Strings that are not valid UTF-16 are skipped; a block that ends in the
    /// middle of a count gives an I/O error after the strings before it were added. A
    /// string longer than what is left panics, which `requires` rules out.
    pub fn load_pe_data(&mut self, index: u32, data: &[u8]) -> (r: Result<(), LoadError>)
        requires
            !pe_walk_panics(data@, 0),
            index + data.len() <= u32::MAX,
        ensures
            final(self)@ == add_pe_strings(old(self)@, pe_walk(data@, 0, index as int).0),
            r is Ok <==> pe_walk(data@, 0, index as int).1,
            r matches Err(e) ==> e == LoadError::IoError,
    {
        let ghost d = data@;
        let ghost start = self@;
        let ghost index0 = index as int;
        let mut next = index;
        let mut pos: usize = 0;
        let ghost mut done: Seq<(int, Seq<u8>)> = Seq::empty();
        while pos < data.len()
            invariant
                d == data@,
                pos <= data.len(),
                next + data.len() - pos <= u32::MAX,
                !pe_walk_panics(d, pos as int),
                self@ == add_pe_strings(start, done),
                start == old(self)@,
                index0 == index as int,
                pe_walk(d, 0, index0) == (done + pe_walk(d, pos as int, next as int).0, pe_walk(
                    d,
                    pos as int,
                    next as int,
                ).1),
            decreases data.len() - pos,
        {
            let (n, p) = match read_u16_le(data, pos) {
                Ok(x) => x,
                Err(_) => {
                    assert(done + Seq::<(int, Seq<u8>)>::empty() =~= done);
                    return Err(LoadError::IoError);
                },
            };
            let len = (n as usize) * 2;
            if len == 0 {
                next = next + 1;
                pos = p;
                continue;
            }
            let mut bytes: Vec<u8> = Vec::new();
            let mut k: usize = 0;
            while k < len
                invariant
                    k <= len,
                    p + len <= data.len(),
                    bytes@ == data@.subrange(p as int, p + k),
                decreases len - k,
            {
                bytes.push(data[p + k]);
                k = k + 1;
                assert(bytes@ =~= data@.subrange(p as int, p + k));
            }
            let (string, failed) = decode_utf16le(bytes.as_slice());
            proof {
                lemma_add_pe_strings_push(start, done, (next as int, bytes@));
            }
            if !failed {
                self.insert(StringKey::Num(next), string);
            }
            proof {
                let x = (next as int, bytes@);
                assert((done + seq![x]) + pe_walk(d, (p + len) as int, next + 1).0 =~= done + (seq![
                    x,
                ] + pe_walk(d, (p + len) as int, next + 1).0));
                done = done.push(x);
                assert(done =~= done.drop_last() + seq![x]);
            }
            next = next + 1;
            pos = p + len;
        }
        assert(done + Seq::<(int, Seq<u8>)>::empty() =~= done);
        Ok(())
    }
}

} // verus!
