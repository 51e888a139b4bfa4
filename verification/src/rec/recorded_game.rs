//! Opening a recorded game: where its compressed header lies, and the versions that the
//! header starts with.
use crate::codec::{
    law_le_read_of_write, le_at, le_bytes, lemma_le_bytes_len, lemma_pow256_values, read_u32_le,
    ReadError,
};
use crate::deflate::{inflate, inflate_prefix, inflated, inflated_prefix};
use crate::rec::version::GameVersion;
use vstd::prelude::*;

verus! {

/// A recorded game file, with the place of its compressed header and the versions that the
/// header starts with.
pub struct RecordedGame {
    inner: Vec<u8>,
    header_start: u64,
    header_end: u64,
    next_header: Option<u64>,
    game_version: GameVersion,
    save_version: u32,
}

/// The values of an opened recorded game: its bytes, where its compressed header starts and
/// ends, the next header of a game with saved chapters, the game version and the save
/// version (the bit pattern of an `f32`).
pub ghost struct RecordedGameView {
    pub data: Seq<u8>,
    pub header_start: u64,
    pub header_end: u64,
    pub next_header: Option<u64>,
    pub game_version: Seq<u8>,
    pub save_version: u32,
}

impl RecordedGame {
    /// The header starts after one or two fields of a file that holds both, and its end
    /// was read from a 32-bit field.
    #[verifier::type_invariant]
    spec fn wf(self) -> bool {
        &&& self.header_start == 4 || self.header_start == 8
        &&& self.inner@.len() >= 8
        &&& self.header_end <= u32::MAX
    }
}

impl View for RecordedGame {
    type V = RecordedGameView;

    closed spec fn view(&self) -> RecordedGameView {
        RecordedGameView {
            data: self.inner@,
            header_start: self.header_start,
            header_end: self.header_end,
            next_header: self.next_header,
            game_version: self.game_version@,
            save_version: self.save_version,
        }
    }
}

/// Where the compressed header of the file `d` starts: right after the first field when
/// the second one points past the end of the file, and after both otherwise.
pub open spec fn header_start_of(d: Seq<u8>) -> u64 {
    if le_at(d, 4, 4) > d.len() {
        4
    } else {
        8
    }
}

/// The next header of the file `d`, which the second field points at when it lies inside
/// the file.
pub open spec fn next_header_of(d: Seq<u8>) -> Option<u64> {
    if le_at(d, 4, 4) > 0 && le_at(d, 4, 4) < d.len() {
        Some(le_at(d, 4, 4) as u64)
    } else {
        None
    }
}

/// The recorded game file `d`: the end of its header from the first field, the start of
/// the header and the next header from the second, and the game version (8 bytes) and
/// save version (4 bytes) that the decompressed header starts with.
pub open spec fn recorded_game_at(d: Seq<u8>) -> Result<RecordedGameView, ReadError> {
    if d.len() < 8 {
        Err(ReadError::UnexpectedEof)
    } else {
        match inflated_prefix(d.subrange(header_start_of(d) as int, d.len() as int), 12) {
            None => Err(ReadError::InvalidData),
            Some(h) => Ok(
                RecordedGameView {
                    data: d,
                    header_start: header_start_of(d),
                    header_end: le_at(d, 0, 4) as u64,
                    next_header: next_header_of(d),
                    game_version: h.subrange(0, 8),
                    save_version: le_at(h, 8, 4) as u32,
                },
            ),
        }
    }
}

/// The compressed header of an opened recorded game: its bytes from where the header
/// starts to where it ends, as far as the file goes.
pub open spec fn compressed_header(g: RecordedGameView) -> Seq<u8> {
    let end = if g.header_end < g.data.len() {
        g.header_end as int
    } else {
        g.data.len() as int
    };
    g.data.subrange(g.header_start as int, end)
}

/// Copies bytes `start..end` of `data`.
fn copy_bytes(data: &[u8], start: usize, end: usize) -> (v: Vec<u8>)
    requires
        start <= end <= data.len(),
    ensures
        v@ == data@.subrange(start as int, end as int),
{
    let mut v: Vec<u8> = Vec::new();
    let mut i: usize = start;
    while i < end
        invariant
            start <= i <= end <= data.len(),
            v@ == data@.subrange(start as int, i as int),
        decreases end - i,
    {
        v.push(data[i]);
        i = i + 1;
        assert(v@ =~= data@.subrange(start as int, i as int));
    }
    v
}

impl RecordedGame {
    /// Open a recorded game: read where its header lies, and the game and save versions
    /// at the start of the decompressed header.
    pub fn new(input: Vec<u8>) -> (r: Result<RecordedGame, ReadError>)
        ensures
            match recorded_game_at(input@) {
                Ok(v) => r matches Ok(g) && g@ == v,
                Err(e) => r == Err::<RecordedGame, ReadError>(e),
            },
    {
        let file_size = input.len();
        let (header_end, p) = read_u32_le(input.as_slice(), 0)?;
        let (next, _) = read_u32_le(input.as_slice(), p)?;
        let header_start: usize = if (next as usize) > file_size {
            4
        } else {
            8
        };
        let next_header = if next > 0 && (next as usize) < file_size {
            Some(next as u64)
        } else {
            None
        };
        let rest = copy_bytes(input.as_slice(), header_start, file_size);
        match inflate_prefix(rest.as_slice(), 12) {
            Some(h) => {
                let game_version = match GameVersion::read_from(h.as_slice()) {
                    Ok(v) => v,
                    Err(e) => {
                        return Err(e);
                    },
                };
                let (save_version, _) = match read_u32_le(h.as_slice(), 8) {
                    Ok(x) => x,
                    Err(e) => {
                        return Err(e);
                    },
                };
                Ok(
                    RecordedGame {
                        inner: input,
                        header_start: header_start as u64,
                        header_end: header_end as u64,
                        next_header,
                        game_version,
                        save_version,
                    },
                )
            },
            None => Err(ReadError::InvalidData),
        }
    }

    /// The save version, as the bit pattern of an `f32`.
    pub fn save_version(&self) -> (r: u32)
        ensures
            r == self@.save_version,
    {
        self.save_version
    }

    /// The decompressed header: the bytes from the start of the header to its end, as far
    /// as the file goes, decompressed to their end.
    pub fn get_header_data(&self) -> (r: Result<Vec<u8>, ReadError>)
        requires
            self@.header_start <= self@.header_end,
        ensures
            match inflated(compressed_header(self@)) {
                Some(h) => r matches Ok(v) && v@ == h,
                None => r == Err::<Vec<u8>, ReadError>(ReadError::InvalidData),
            },
    {
        proof {
            use_type_invariant(self);
        }
        let n = self.inner.len();
        let start = self.header_start as usize;
        let end: usize = if (self.header_end as usize) < n {
            self.header_end as usize
        } else {
            n
        };
        let c = copy_bytes(self.inner.as_slice(), start, end);
        match inflate(c.as_slice()) {
            Some(h) => Ok(h),
            None => Err(ReadError::InvalidData),
        }
    }

    /// The bytes of the recorded game.
    pub fn into_inner(self) -> (r: Vec<u8>)
        ensures
            r@ == self@.data,
    {
        self.inner
    }
}

/// A file whose first field (the end of the header) is followed at once by the compressed
/// header, whose first four bytes as a number point past the end of the file: the header is
/// read from right after the first field, and the game version and save version are the
/// first 8 and the next 4 bytes of what it decompresses to.
pub proof fn law_header_after_one_field(h: u32, rest: Seq<u8>)
    requires
        rest.len() >= 4,
        le_at(rest, 0, 4) > 4 + rest.len(),
    ensures
        ({
            let d = le_bytes(h as nat, 4) + rest;
            &&& recorded_game_at(d) is Ok <==> inflated_prefix(rest, 12) is Some
            &&& recorded_game_at(d) matches Ok(g) ==> {
                &&& g.header_start == 4
                &&& g.header_end == h
                &&& g.next_header is None
                &&& g.game_version == inflated_prefix(rest, 12)->0.subrange(0, 8)
                &&& g.save_version == le_at(inflated_prefix(rest, 12)->0, 8, 4) as u32
            }
        }),
{
    lemma_pow256_values();
    lemma_le_bytes_len(h as nat, 4);
    let d = le_bytes(h as nat, 4) + rest;
    law_le_read_of_write(Seq::empty(), h as nat, 4, rest);
    assert(Seq::<u8>::empty() + le_bytes(h as nat, 4) + rest =~= d);
    assert(d.subrange(4, 8) =~= rest.subrange(0, 4));
    assert(d.subrange(4, d.len() as int) =~= rest);
    assert(le_at(d, 0, 4) == h);
    assert(le_at(d, 4, 4) == le_at(rest, 0, 4));
    assert(header_start_of(d) == 4);
    assert(next_header_of(d) is None);
    assert(d.len() >= 8);
    assert(d.subrange(header_start_of(d) as int, d.len() as int) == rest);
    match inflated_prefix(rest, 12) {
        Some(x) => {
            assert(recorded_game_at(d) is Ok);
            assert(recorded_game_at(d)->Ok_0.game_version == x.subrange(0, 8));
        },
        None => {
            assert(recorded_game_at(d) is Err);
        },
    }
}

/// A file with both fields before the compressed header, the second one pointing inside the
/// file or just at its end: the header is read from right after the second field, which is
/// the next header when it points inside the file and is not 0.
pub proof fn law_header_after_two_fields(h: u32, n: u32, rest: Seq<u8>)
    requires
        n <= 8 + rest.len(),
    ensures
        ({
            let d = le_bytes(h as nat, 4) + le_bytes(n as nat, 4) + rest;
            &&& recorded_game_at(d) is Ok <==> inflated_prefix(rest, 12) is Some
            &&& recorded_game_at(d) matches Ok(g) ==> {
                &&& g.header_start == 8
                &&& g.header_end == h
                &&& g.next_header == (if 0 < n < d.len() { Some(n as u64) } else { None })
                &&& g.game_version == inflated_prefix(rest, 12)->0.subrange(0, 8)
                &&& g.save_version == le_at(inflated_prefix(rest, 12)->0, 8, 4) as u32
            }
        }),
{
    lemma_pow256_values();
    lemma_le_bytes_len(h as nat, 4);
    lemma_le_bytes_len(n as nat, 4);
    let d = le_bytes(h as nat, 4) + le_bytes(n as nat, 4) + rest;
    law_le_read_of_write(Seq::empty(), h as nat, 4, le_bytes(n as nat, 4) + rest);
    assert(Seq::<u8>::empty() + le_bytes(h as nat, 4) + (le_bytes(n as nat, 4) + rest) =~= d);
    law_le_read_of_write(le_bytes(h as nat, 4), n as nat, 4, rest);
    assert(d.subrange(8, d.len() as int) =~= rest);
    assert(le_at(d, 0, 4) == h);
    assert(le_at(d, 4, 4) == n);
    assert(header_start_of(d) == 8);
}

} // verus!
