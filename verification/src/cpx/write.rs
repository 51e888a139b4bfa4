//! Writing campaign files.
use crate::codec::{le_bytes, lemma_pow256_values, push_bytes, push_zeros, put_i32_le, put_u16_le, put_u64_le};
use crate::cpx::read::{Campaign, CampaignHeader, scenario_bytes};
use crate::cpx::{AOE1_DE, AOE_AOK};
use crate::cpx::read::same_version;
use vstd::prelude::*;
use vstd::string::StringSliceAdditionalSpecFns;
use vstd::utf8::encode_utf8;

verus! {

/// Type for errors that could occur during writing.
#[derive(Debug, Clone, Copy, PartialEq, Eq)]
pub enum WriteCampaignError {
    /// An I/O error occurred during writing.
    IoError,
    /// A scenario could not be found, either because the original campaign file was corrupt, or
    /// the scenario file exists but could not be parsed.
    NotFoundError(usize),
}

/// The bytes of a length-prefixed string: the marker `0x0A60`, the byte length, the bytes.
pub open spec fn var_string_bytes(s: Seq<char>) -> Seq<u8> {
    le_bytes(0x0A60, 2) + le_bytes(encode_utf8(s).len(), 2) + encode_utf8(s)
}

/// The bytes of a string in a field of `len` bytes, padded with NULs.
pub open spec fn fixed_string_bytes(s: Seq<char>, len: nat) -> Seq<u8> {
    encode_utf8(s) + Seq::new((len - encode_utf8(s).len()) as nat, |i: int| 0u8)
}

/// Write a length-prefixed string.
fn write_variable_str(out: &mut Vec<u8>, value: &str)
    requires
        value.spec_bytes().len() < u16::MAX,
    ensures
        final(out)@ == old(out)@ + var_string_bytes(value@),
{
    proof {
        lemma_pow256_values();
    }
    put_u16_le(out, 0x0A60);
    let bytes = value.as_bytes();
    put_u16_le(out, bytes.len() as u16);
    push_bytes(out, bytes);
    assert(final(out)@ =~= old(out)@ + var_string_bytes(value@));
}

/// Write a string into a field of `len` bytes, padded with NULs.
fn write_fixed_str(out: &mut Vec<u8>, value: &str, len: usize)
    requires
        value.spec_bytes().len() < len,
    ensures
        final(out)@ == old(out)@ + fixed_string_bytes(value@, len as nat),
{
    let bytes = value.as_bytes();
    push_bytes(out, bytes);
    push_zeros(out, len - bytes.len());
    assert(final(out)@ =~= old(out)@ + fixed_string_bytes(value@, len as nat));
}

/// Describes a scenario file to be added to the campaign.
struct CampaignEntry {
    name: String,
    filename: String,
    bytes: Vec<u8>,
}

/// A scenario to be written: its name, its file name and its bytes.
pub type EntryView = (Seq<char>, Seq<char>, Seq<u8>);

/// The views of the scenarios to be written.
spec fn entries_view(v: Seq<CampaignEntry>) -> Seq<EntryView> {
    v.map_values(|e: CampaignEntry| (e.name@, e.filename@, e.bytes@))
}

/// The bytes of a campaign's header in the format of `version`.
pub open spec fn campaign_header_bytes(version: Seq<u8>, name: Seq<char>, num: nat) -> Seq<u8> {
    if version == AOE1_DE@ {
        version + le_bytes(num, 4) + var_string_bytes(name)
    } else {
        version + fixed_string_bytes(name, 256) + le_bytes(num, 4)
    }
}

/// The bytes of a scenario's entry, with the given offset, in the format of `version`; the
/// classic entry ends with two bytes of padding.
pub open spec fn meta_bytes(version: Seq<u8>, e: EntryView, offset: nat) -> Seq<u8> {
    if version == AOE1_DE@ {
        le_bytes(e.2.len(), 8) + le_bytes(offset, 8) + var_string_bytes(e.0) + var_string_bytes(e.1)
    } else {
        le_bytes(e.2.len(), 4) + le_bytes(offset, 4) + fixed_string_bytes(e.0, 255)
            + fixed_string_bytes(e.1, 255) + seq![0u8, 0u8]
    }
}

/// The size of the header and entries, in the format of `version`: where the first
/// scenario's bytes go.
pub open spec fn meta_size(version: Seq<u8>, name: Seq<char>, es: Seq<EntryView>) -> nat
    decreases es.len(),
{
    if es.len() == 0 {
        if version == AOE1_DE@ {
            4 + 4 + encode_utf8(name).len() + 4
        } else {
            4 + 4 + 256
        }
    } else {
        let e = es.last();
        meta_size(version, name, es.drop_last()) + if version == AOE1_DE@ {
            16 + (encode_utf8(e.0).len() + 4) + (encode_utf8(e.1).len() + 4)
        } else {
            2 * 4 + 255 + 255 + 2
        }
    }
}

/// The bytes of all scenarios, one after the other.
pub open spec fn entries_data(es: Seq<EntryView>) -> Seq<u8>
    decreases es.len(),
{
    if es.len() == 0 {
        Seq::empty()
    } else {
        entries_data(es.drop_last()) + es.last().2
    }
}

/// The entries of the scenarios, the first scenario's bytes starting at `start`.
pub open spec fn metas_bytes(version: Seq<u8>, es: Seq<EntryView>, start: nat) -> Seq<u8>
    decreases es.len(),
{
    if es.len() == 0 {
        Seq::empty()
    } else {
        let init = es.drop_last();
        metas_bytes(version, init, start) + meta_bytes(version, es.last(), start + entries_data(init).len())
    }
}

/// The campaign file that a writer writes: header, entries, and the scenarios' bytes.
pub open spec fn campaign_bytes(version: Seq<u8>, name: Seq<char>, es: Seq<EntryView>) -> Seq<u8> {
    campaign_header_bytes(version, name, es.len()) + metas_bytes(version, es, meta_size(version, name, es))
        + entries_data(es)
}

/// What a writer can write: names that fit their fields, and sizes and offsets that fit
/// theirs.
pub open spec fn campaign_writable(version: Seq<u8>, name: Seq<char>, es: Seq<EntryView>) -> bool {
    &&& es.len() < i32::MAX
    &&& meta_size(version, name, es) + entries_data(es).len() < i32::MAX
    &&& if version == AOE1_DE@ {
        &&& encode_utf8(name).len() < u16::MAX
        &&& forall|i: int|
            0 <= i < es.len() ==> encode_utf8((#[trigger] es[i]).0).len() < u16::MAX && encode_utf8(
                es[i].1,
            ).len() < u16::MAX
    } else {
        &&& encode_utf8(name).len() < 256
        &&& forall|i: int|
            0 <= i < es.len() ==> encode_utf8((#[trigger] es[i]).0).len() < 255 && encode_utf8(
                es[i].1,
            ).len() < 255
    }
}

/// A campaign file writer. Instantiate it, then add scenario files to it.
///
/// This keeps all scenario files in memory until the file is written by `flush()`.
pub struct CampaignWriter {
    writer: Vec<u8>,
    header: CampaignHeader,
    scenarios: Vec<CampaignEntry>,
}

impl View for CampaignWriter {
    /// The version, the campaign's name, and the scenarios added so far.
    type V = (Seq<u8>, Seq<char>, Seq<EntryView>);

    closed spec fn view(&self) -> (Seq<u8>, Seq<char>, Seq<EntryView>) {
        (self.header.version@, self.header.name@, entries_view(self.scenarios@))
    }
}

impl CampaignWriter {
    /// The bytes written so far (none before `flush`).
    pub closed spec fn written(&self) -> Seq<u8> {
        self.writer@
    }

    /// Create a new campaign with user-visible name `name`, in the classic format.
    pub fn new(name: &str) -> (w: Self)
        ensures
            w@ == (AOE_AOK@, name@, Seq::<EntryView>::empty()),
            w.written() == Seq::<u8>::empty(),
    {
        let w = CampaignWriter {
            writer: Vec::new(),
            header: CampaignHeader { version: AOE_AOK, name: name.to_owned(), num_scenarios: 0 },
            scenarios: Vec::new(),
        };
        assert(entries_view(w.scenarios@) =~= Seq::<EntryView>::empty());
        w
    }

    /// Set the file version to output: the classic one or that of Age of Empires:
    /// Definitive Edition.
    pub fn version(self, version: [u8; 4]) -> (w: Self)
        requires
            version@ == AOE_AOK@ || version@ == AOE1_DE@,
        ensures
            w@ == (version@, self@.1, self@.2),
            w.written() == self.written(),
    {
        let mut w = self;
        w.header.version = version;
        w
    }

    /// Add a scenario (as a byte array) to this campaign.
    pub fn add_raw(&mut self, name: &str, filename: &str, scx: Vec<u8>)
        ensures
            final(self)@ == (old(self)@.0, old(self)@.1, old(self)@.2.push((name@, filename@, scx@))),
            final(self).written() == old(self).written(),
    {
        let ghost before = self.scenarios@;
        let e = CampaignEntry { name: name.to_owned(), filename: filename.to_owned(), bytes: scx };
        self.scenarios.push(e);
        assert(entries_view(self.scenarios@) =~= entries_view(before).push((name@, filename@, scx@)));
    }

    /// Consume the `CampaignWriter` instance, returning the bytes written.
    pub fn into_inner(self) -> (v: Vec<u8>)
        ensures
            v@ == self.written(),
    {
        self.writer
    }
}


proof fn lemma_meta_size_classic(version: Seq<u8>, name: Seq<char>, es: Seq<EntryView>)
    requires
        version != AOE1_DE@,
    ensures
        meta_size(version, name, es) == 264 + 520 * es.len(),
    decreases es.len(),
{
    if es.len() > 0 {
        lemma_meta_size_classic(version, name, es.drop_last());
    }
}

proof fn lemma_meta_size_prefix(version: Seq<u8>, name: Seq<char>, es: Seq<EntryView>, k: int)
    requires
        0 <= k <= es.len(),
    ensures
        meta_size(version, name, es.take(k)) <= meta_size(version, name, es),
        entries_data(es.take(k)).len() <= entries_data(es).len(),
    decreases es.len() - k,
{
    if k < es.len() {
        lemma_meta_size_prefix(version, name, es, k + 1);
        assert(es.take(k + 1).drop_last() =~= es.take(k));
    } else {
        assert(es.take(k) =~= es);
    }
}

impl CampaignWriter {
    /// Get the size in bytes of all metadata.
    fn get_meta_size(&self) -> (n: usize)
        requires
            self@.0 != AOE1_DE@,
            meta_size(self@.0, self@.1, self@.2) < i32::MAX,
        ensures
            n == meta_size(self@.0, self@.1, self@.2),
    {
        proof {
            lemma_meta_size_classic(self@.0, self@.1, self@.2);
        }
        let header_size: usize = 4 + 4 + 256;
        header_size + self.scenarios.len() * (2 * 4 + 255 + 255 + 2)
    }

    /// Get the size in bytes of all metadata for a AoE1: DE campaign file.
    fn get_meta_size_de(&self) -> (n: usize)
        requires
            self@.0 == AOE1_DE@,
            meta_size(self@.0, self@.1, self@.2) < i32::MAX,
        ensures
            n == meta_size(self@.0, self@.1, self@.2),
    {
        let es = Ghost(self@.2);
        proof {
            lemma_meta_size_prefix(self@.0, self@.1, es@, 0);
            assert(es@.take(0) =~= Seq::<EntryView>::empty());
        }
        let mut acc: usize = 4 + 4 + (self.header.name.as_str().as_bytes().len() + 4);
        assert(acc == meta_size(self@.0, self@.1, es@.take(0))) by {
            assert(es@.take(0) =~= Seq::<EntryView>::empty());
        }
        let mut i: usize = 0;
        while i < self.scenarios.len()
            invariant
                self@.0 == AOE1_DE@,
                es@ == self@.2,
                es@.len() == self.scenarios@.len(),
                meta_size(self@.0, self@.1, es@) < i32::MAX,
                i <= self.scenarios@.len(),
                acc == meta_size(self@.0, self@.1, es@.take(i as int)),
            decreases self.scenarios.len() - i,
        {
            proof {
                lemma_meta_size_prefix(self@.0, self@.1, es@, i + 1);
                assert(es@.take(i + 1).drop_last() =~= es@.take(i as int));
                assert(es@[i as int] == (self.scenarios@[i as int].name@, self.scenarios@[i as int].filename@, self.scenarios@[i as int].bytes@));
            }
            let scen = &self.scenarios[i];
            acc = acc + 2 * 8 + (scen.name.as_str().as_bytes().len() + 4) + (
            scen.filename.as_str().as_bytes().len() + 4);
            i = i + 1;
        }
        assert(es@.take(es@.len() as int) =~= es@);
        acc
    }
}


impl CampaignWriter {
    /// Write the campaign header.
    fn write_header(&mut self)
        requires
            campaign_writable(old(self)@.0, old(self)@.1, old(self)@.2),
        ensures
            final(self)@ == old(self)@,
            final(self).written() == old(self).written() + campaign_header_bytes(
                old(self)@.0,
                old(self)@.1,
                old(self)@.2.len(),
            ),
    {
        proof {
            lemma_pow256_values();
        }
        let n = self.scenarios.len();
        self.header.num_scenarios = n;
        assert(self@.2.len() == n);
        let version = self.header.version;
        push_bytes(&mut self.writer, &version);
        if same_version(version, AOE1_DE) {
            put_i32_le(&mut self.writer, n as i32);
            write_variable_str(&mut self.writer, self.header.name.as_str());
        } else {
            write_fixed_str(&mut self.writer, self.header.name.as_str(), 256);
            put_i32_le(&mut self.writer, n as i32);
        }
        assert(self.written() =~= old(self).written() + campaign_header_bytes(
            old(self)@.0,
            old(self)@.1,
            old(self)@.2.len(),
        ));
    }

    /// Write the scenario metadata block.
    fn write_metas(&mut self)
        requires
            campaign_writable(old(self)@.0, old(self)@.1, old(self)@.2),
        ensures
            final(self)@ == old(self)@,
            final(self).written() == old(self).written() + metas_bytes(
                old(self)@.0,
                old(self)@.2,
                meta_size(old(self)@.0, old(self)@.1, old(self)@.2),
            ),
    {
        proof {
            lemma_pow256_values();
        }
        let version = self.header.version;
        let de = same_version(version, AOE1_DE);
        let mut offset = if de {
            self.get_meta_size_de()
        } else {
            self.get_meta_size()
        };
        let ghost es = self@.2;
        let ghost start = offset as nat;
        let ghost v = self@.0;
        let ghost w0 = self.writer@;
        let mut i: usize = 0;
        while i < self.scenarios.len()
            invariant
                es == self@.2,
                v == self@.0,
                v == version@,
                de == (v == AOE1_DE@),
                self@ == old(self)@,
                w0 == old(self).written(),
                campaign_writable(v, self@.1, es),
                start == meta_size(v, self@.1, es),
                es.len() == self.scenarios@.len(),
                i <= self.scenarios@.len(),
                offset == start + entries_data(es.take(i as int)).len(),
                self.writer@ == w0 + metas_bytes(v, es.take(i as int), start),
            decreases self.scenarios.len() - i,
        {
            proof {
                lemma_meta_size_prefix(v, self@.1, es, i + 1);
                assert(es.take(i + 1).drop_last() =~= es.take(i as int));
                assert(es.take(i + 1).last() == es[i as int]);
                assert(es[i as int] == (self.scenarios@[i as int].name@, self.scenarios@[i as int].filename@, self.scenarios@[i as int].bytes@));
            }
            let scen = &self.scenarios[i];
            let size = scen.bytes.len();
            if de {
                put_u64_le(&mut self.writer, size as u64);
                put_u64_le(&mut self.writer, offset as u64);
                write_variable_str(&mut self.writer, scen.name.as_str());
                write_variable_str(&mut self.writer, scen.filename.as_str());
            } else {
                put_i32_le(&mut self.writer, size as i32);
                put_i32_le(&mut self.writer, offset as i32);
                write_fixed_str(&mut self.writer, scen.name.as_str(), 255);
                write_fixed_str(&mut self.writer, scen.filename.as_str(), 255);
                self.writer.push(0);
                self.writer.push(0);
            }
            proof {
                assert(self.writer@ =~= w0 + metas_bytes(v, es.take(i + 1), start));
            }
            offset = offset + size;
            i = i + 1;
        }
        assert(es.take(es.len() as int) =~= es);
    }

    /// Write the scenario data.
    fn write_scenarios(&mut self)
        ensures
            final(self)@ == old(self)@,
            final(self).written() == old(self).written() + entries_data(old(self)@.2),
    {
        let ghost es = self@.2;
        let mut i: usize = 0;
        while i < self.scenarios.len()
            invariant
                es == self@.2,
                self@ == old(self)@,
                es.len() == self.scenarios@.len(),
                i <= self.scenarios@.len(),
                self.writer@ == old(self).written() + entries_data(es.take(i as int)),
            decreases self.scenarios.len() - i,
        {
            proof {
                assert(es.take(i + 1).drop_last() =~= es.take(i as int));
                assert(es.take(i + 1).last() == es[i as int]);
                assert(es[i as int].2 == self.scenarios@[i as int].bytes@);
            }
            let scen = &self.scenarios[i];
            push_bytes(&mut self.writer, scen.bytes.as_slice());
            i = i + 1;
        }
        assert(es.take(es.len() as int) =~= es);
    }

    /// Write the scenarios, consuming the CampaignWriter object, and return the bytes written.
    pub fn flush(self) -> (v: Vec<u8>)
        requires
            campaign_writable(self@.0, self@.1, self@.2),
        ensures
            v@ == self.written() + campaign_bytes(self@.0, self@.1, self@.2),
    {
        let mut w = self;
        w.write_header();
        w.write_metas();
        w.write_scenarios();
        let ghost a = self.written();
        assert(w.written() =~= a + campaign_bytes(self@.0, self@.1, self@.2));
        w.into_inner()
    }
}


/// The scenarios that a read campaign holds, as a writer takes them: name, file name, and
/// the bytes that the entry points at in the campaign file `d`.
pub open spec fn entries_of_campaign(d: Seq<u8>, ms: Seq<crate::cpx::MetaView>) -> Seq<EntryView> {
    ms.map_values(|m: crate::cpx::MetaView| (m.2, m.3, scenario_bytes(d, m)))
}

impl Campaign {
    /// Write the campaign file, using the same version as when reading it.
    pub fn write_to(&self) -> (r: Result<Vec<u8>, WriteCampaignError>)
        requires
            self@.1 == AOE_AOK@ || self@.1 == AOE1_DE@,
            campaign_writable(self@.1, self@.2, entries_of_campaign(self@.0, self@.3)),
        ensures
            r matches Ok(v) && v@ == campaign_bytes(
                self@.1,
                self@.2,
                entries_of_campaign(self@.0, self@.3),
            ),
    {
        self.write_to_version(self.version())
    }

    /// Write the campaign file with the given version: its name, and each scenario's name,
    /// file name and bytes.
    pub fn write_to_version(&self, version: [u8; 4]) -> (r: Result<Vec<u8>, WriteCampaignError>)
        requires
            version@ == AOE_AOK@ || version@ == AOE1_DE@,
            campaign_writable(version@, self@.2, entries_of_campaign(self@.0, self@.3)),
        ensures
            r matches Ok(v) && v@ == campaign_bytes(
                version@,
                self@.2,
                entries_of_campaign(self@.0, self@.3),
            ),
    {
        let mut writer = CampaignWriter::new(self.name()).version(version);
        let ghost es = entries_of_campaign(self@.0, self@.3);
        let mut i: usize = 0;
        while i < self.len()
            invariant
                es == entries_of_campaign(self@.0, self@.3),
                es.len() == self@.3.len(),
                i <= self@.3.len(),
                writer@ == (version@, self@.2, es.take(i as int)),
                writer.written() == Seq::<u8>::empty(),
            decreases self@.3.len() - i,
        {
            let bytes = match self.by_index_raw(i) {
                Ok(b) => b,
                Err(_) => {
                    return Err(WriteCampaignError::NotFoundError(i));
                },
            };
            match (self.get_name(i), self.get_filename(i)) {
                (Some(name), Some(filename)) => {
                    writer.add_raw(name, filename, bytes);
                },
                _ => {
                    return Err(WriteCampaignError::NotFoundError(i));
                },
            }
            proof {
                assert(es.take(i + 1) =~= es.take(i as int).push(es[i as int]));
            }
            i = i + 1;
        }
        assert(es.take(es.len() as int) =~= es);
        Ok(writer.flush())
    }
}


/// A name that the detected encoding decodes back from its UTF-8 bytes.
pub open spec fn decodes_back(s: Seq<char>) -> bool {
    crate::cpx::read::decoded_text(encode_utf8(s)) == Some(s)
}

proof fn lemma_field(d: Seq<u8>, p: int, v: nat, k: nat)
    requires
        0 <= p,
        p + k <= d.len(),
        v < crate::codec::pow256(k),
        d.subrange(p, p + k) == le_bytes(v, k),
    ensures
        crate::codec::le_at(d, p, k) == v,
{
    crate::codec::lemma_le_roundtrip(v, k);
}

proof fn lemma_var_string_at(d: Seq<u8>, p: int, s: Seq<char>)
    requires
        0 <= p,
        encode_utf8(s).len() < u16::MAX,
        decodes_back(s),
        p + 4 + encode_utf8(s).len() <= d.len(),
        d.subrange(p, p + 4 + encode_utf8(s).len()) == var_string_bytes(s),
    ensures
        var_string_bytes(s).len() == 4 + encode_utf8(s).len(),
        crate::cpx::read::var_string_at(d, p) == Ok::<(Seq<char>, int), crate::cpx::ReadCampaignError>(
            (s, p + 4 + encode_utf8(s).len()),
        ),
{
    lemma_pow256_values();
    let e = encode_utf8(s);
    crate::codec::lemma_le_bytes_len(0x0A60, 2);
    crate::codec::lemma_le_bytes_len(e.len(), 2);
    let w = d.subrange(p, p + 4 + e.len());
    assert(d.subrange(p, p + 2) =~= w.subrange(0, 2));
    assert(w.subrange(0, 2) =~= le_bytes(0x0A60, 2));
    lemma_field(d, p, 0x0A60, 2);
    assert(d.subrange(p + 2, p + 4) =~= w.subrange(2, 4));
    assert(w.subrange(2, 4) =~= le_bytes(e.len(), 2));
    lemma_field(d, p + 2, e.len(), 2);
    assert(d.subrange(p + 4, p + 4 + e.len()) =~= w.subrange(4, 4 + e.len() as int));
    assert(w.subrange(4, 4 + e.len() as int) =~= e);
}

/// Reading the entry that was written for a scenario gives back its size, offset and names.
proof fn lemma_meta_at(d: Seq<u8>, p: int, e: EntryView, off: nat)
    requires
        0 <= p,
        encode_utf8(e.0).len() < u16::MAX,
        encode_utf8(e.1).len() < u16::MAX,
        decodes_back(e.0),
        decodes_back(e.1),
        e.2.len() < i32::MAX,
        off < i32::MAX,
        p + meta_bytes(AOE1_DE@, e, off).len() <= d.len(),
        d.subrange(p, p + meta_bytes(AOE1_DE@, e, off).len()) == meta_bytes(AOE1_DE@, e, off),
    ensures
        crate::cpx::read::meta_at(d, p, AOE1_DE@) == Ok::<(crate::cpx::MetaView, int), crate::cpx::ReadCampaignError>(
            ((e.2.len() as usize, off as usize, e.0, e.1), p + meta_bytes(AOE1_DE@, e, off).len()),
        ),
{
    reveal(crate::cpx::read::meta_at);
    lemma_pow256_values();
    lemma_meta_bytes_len(e, off);
    crate::codec::lemma_le_bytes_len(e.2.len(), 8);
    crate::codec::lemma_le_bytes_len(off, 8);
    let w = d.subrange(p, p + meta_bytes(AOE1_DE@, e, off).len());
    let n0 = encode_utf8(e.0).len() as int;
    let n1 = encode_utf8(e.1).len() as int;
    crate::codec::lemma_le_bytes_len(0x0A60, 2);
    crate::codec::lemma_le_bytes_len(n0 as nat, 2);
    crate::codec::lemma_le_bytes_len(n1 as nat, 2);
    assert(var_string_bytes(e.0).len() == 4 + n0);
    assert(var_string_bytes(e.1).len() == 4 + n1);
    assert(w =~= le_bytes(e.2.len(), 8) + le_bytes(off, 8) + var_string_bytes(e.0) + var_string_bytes(e.1));
    assert(d.subrange(p, p + 8) =~= w.subrange(0, 8));
    assert(w.subrange(0, 8) =~= le_bytes(e.2.len(), 8));
    lemma_field(d, p, e.2.len(), 8);
    assert(d.subrange(p + 8, p + 16) =~= w.subrange(8, 16));
    assert(w.subrange(8, 16) =~= le_bytes(off, 8));
    lemma_field(d, p + 8, off, 8);
    assert(d.subrange(p + 16, p + 16 + 4 + n0) =~= w.subrange(16, 16 + 4 + n0));
    assert(w.subrange(16, 16 + 4 + n0) =~= var_string_bytes(e.0));
    lemma_var_string_at(d, p + 16, e.0);
    assert(d.subrange(p + 20 + n0, p + 20 + n0 + 4 + n1) =~= w.subrange(20 + n0, 20 + n0 + 4 + n1));
    assert(w.subrange(20 + n0, 20 + n0 + 4 + n1) =~= var_string_bytes(e.1));
    lemma_var_string_at(d, p + 20 + n0, e.1);
}

proof fn lemma_meta_bytes_len(e: EntryView, offset: nat)
    requires
        encode_utf8(e.0).len() < u16::MAX,
        encode_utf8(e.1).len() < u16::MAX,
    ensures
        meta_bytes(AOE1_DE@, e, offset).len() == 16 + (encode_utf8(e.0).len() + 4) + (encode_utf8(
            e.1,
        ).len() + 4),
{
    lemma_pow256_values();
    crate::codec::lemma_le_bytes_len(e.2.len(), 8);
    crate::codec::lemma_le_bytes_len(offset, 8);
    crate::codec::lemma_le_bytes_len(0x0A60, 2);
    crate::codec::lemma_le_bytes_len(encode_utf8(e.0).len(), 2);
    crate::codec::lemma_le_bytes_len(encode_utf8(e.1).len(), 2);
}

/// The format of Age of Empires: Definitive Edition, with names that fit.
pub open spec fn de_names_fit(name: Seq<char>, es: Seq<EntryView>) -> bool {
    &&& encode_utf8(name).len() < u16::MAX
    &&& forall|i: int|
        0 <= i < es.len() ==> encode_utf8((#[trigger] es[i]).0).len() < u16::MAX && encode_utf8(
            es[i].1,
        ).len() < u16::MAX
}

proof fn lemma_metas_len(name: Seq<char>, es: Seq<EntryView>, start: nat)
    requires
        de_names_fit(name, es),
    ensures
        metas_bytes(AOE1_DE@, es, start).len() + meta_size(AOE1_DE@, name, Seq::<EntryView>::empty())
            == meta_size(AOE1_DE@, name, es),
    decreases es.len(),
{
    if es.len() > 0 {
        let init = es.drop_last();
        assert(forall|k: int| 0 <= k < init.len() ==> #[trigger] init[k] == es[k]);
        lemma_metas_len(name, init, start);
        lemma_meta_bytes_len(es.last(), start + entries_data(init).len());
    } else {
        assert(es =~= Seq::<EntryView>::empty());
    }
}

proof fn lemma_metas_bytes_at(name: Seq<char>, es: Seq<EntryView>, start: nat, i: int)
    requires
        de_names_fit(name, es),
        0 <= i < es.len(),
    ensures
        ({
            let h = meta_size(AOE1_DE@, name, Seq::<EntryView>::empty());
            let p = meta_size(AOE1_DE@, name, es.take(i));
            let b = meta_bytes(AOE1_DE@, es[i], start + entries_data(es.take(i)).len());
            &&& p + b.len() <= meta_size(AOE1_DE@, name, es)
            &&& h <= p
            &&& metas_bytes(AOE1_DE@, es, start).subrange(p - h, p - h + b.len()) == b
        }),
    decreases es.len(),
{
    let v = AOE1_DE@;
    let init = es.drop_last();
    let h = meta_size(v, name, Seq::<EntryView>::empty());
    assert(forall|k: int| 0 <= k < init.len() ==> #[trigger] init[k] == es[k]);
    lemma_metas_len(name, init, start);
    lemma_meta_size_prefix(v, name, es, i);
    lemma_meta_size_prefix(v, name, es.take(i), 0);
    assert(es.take(i).take(0) =~= Seq::<EntryView>::empty());
    let last = meta_bytes(v, es.last(), start + entries_data(init).len());
    lemma_meta_bytes_len(es.last(), start + entries_data(init).len());
    let m_init = metas_bytes(v, init, start);
    let m = metas_bytes(v, es, start);
    assert(m == m_init + last);
    if i < es.len() - 1 {
        lemma_metas_bytes_at(name, init, start, i);
        assert(init.take(i) =~= es.take(i));
        let p = meta_size(v, name, es.take(i));
        let b = meta_bytes(v, es[i], start + entries_data(es.take(i)).len());
        assert(p + b.len() <= meta_size(v, name, init));
        assert(m.subrange(p - h, p - h + b.len()) =~= m_init.subrange(p - h, p - h + b.len()));
    } else {
        assert(es.take(i) =~= init);
        assert(m.subrange(m_init.len() as int, (m_init.len() + last.len()) as int) =~= last);
    }
}


proof fn lemma_entries_data_at(es: Seq<EntryView>, i: int)
    requires
        0 <= i < es.len(),
    ensures
        entries_data(es.take(i)).len() + es[i].2.len() <= entries_data(es).len(),
        entries_data(es).subrange(
            entries_data(es.take(i)).len() as int,
            (entries_data(es.take(i)).len() + es[i].2.len()) as int,
        ) == es[i].2,
    decreases es.len(),
{
    let init = es.drop_last();
    if i < es.len() - 1 {
        lemma_entries_data_at(init, i);
        assert(init.take(i) =~= es.take(i));
        assert(init[i] == es[i]);
        assert(entries_data(es).subrange(
            entries_data(es.take(i)).len() as int,
            (entries_data(es.take(i)).len() + es[i].2.len()) as int,
        ) =~= entries_data(init).subrange(
            entries_data(init.take(i)).len() as int,
            (entries_data(init.take(i)).len() + init[i].2.len()) as int,
        ));
    } else {
        assert(es.take(i) =~= init);
        assert(entries_data(es).subrange(
            entries_data(es.take(i)).len() as int,
            (entries_data(es.take(i)).len() + es[i].2.len()) as int,
        ) =~= es[i].2);
    }
}

/// The entries that reading back a campaign written in the Definitive Edition format gives:
/// each scenario's size, the offset of its bytes, its name and its file name.
pub open spec fn written_metas(name: Seq<char>, es: Seq<EntryView>) -> Seq<crate::cpx::MetaView> {
    Seq::new(
        es.len(),
        |i: int|
            (
                es[i].2.len() as usize,
                (meta_size(AOE1_DE@, name, es) + entries_data(es.take(i)).len()) as usize,
                es[i].0,
                es[i].1,
            ),
    )
}

/// What the names of a written campaign need for it to read back: they fit their fields,
/// and the encoding that is detected decodes them back.
pub open spec fn names_read_back(name: Seq<char>, es: Seq<EntryView>) -> bool {
    &&& decodes_back(name)
    &&& forall|i: int| 0 <= i < es.len() ==> decodes_back((#[trigger] es[i]).0) && decodes_back(es[i].1)
}

proof fn lemma_metas_read(name: Seq<char>, es: Seq<EntryView>, k: nat)
    requires
        campaign_writable(AOE1_DE@, name, es),
        names_read_back(name, es),
        k <= es.len(),
    ensures
        crate::cpx::read::metas_at(
            campaign_bytes(AOE1_DE@, name, es),
            meta_size(AOE1_DE@, name, Seq::<EntryView>::empty()) as int,
            AOE1_DE@,
            k,
        ) == Ok::<(Seq<crate::cpx::MetaView>, int), crate::cpx::ReadCampaignError>(
            (written_metas(name, es).take(k as int), meta_size(AOE1_DE@, name, es.take(k as int)) as int),
        ),
    decreases k,
{
    let v = AOE1_DE@;
    let d = campaign_bytes(v, name, es);
    let h = meta_size(v, name, Seq::<EntryView>::empty());
    if k == 0 {
        assert(es.take(0) =~= Seq::<EntryView>::empty());
        assert(written_metas(name, es).take(0) =~= Seq::<crate::cpx::MetaView>::empty());
    } else {
        let i = k - 1;
        lemma_metas_read(name, es, (k - 1) as nat);
        let s = meta_size(v, name, es);
        let off = s + entries_data(es.take(i)).len();
        let p = meta_size(v, name, es.take(i));
        let b = meta_bytes(v, es[i], off);
        lemma_metas_bytes_at(name, es, s, i);
        lemma_metas_len(name, es, s);
        lemma_meta_size_prefix(v, name, es, i);
        lemma_entries_data_at(es, i);
        let hb = campaign_header_bytes(v, name, es.len());
        lemma_pow256_values();
        crate::codec::lemma_le_bytes_len(es.len(), 4);
        crate::codec::lemma_le_bytes_len(0x0A60, 2);
        crate::codec::lemma_le_bytes_len(encode_utf8(name).len(), 2);
        assert(hb.len() == h);
        let m = metas_bytes(v, es, s);
        assert(d =~= hb + m + entries_data(es));
        assert(d.subrange(p as int, (p + b.len()) as int) =~= m.subrange(p - h, p - h + b.len()));
        lemma_meta_at(d, p as int, es[i], off);
        assert(es.take(k as int).drop_last() =~= es.take(i));
        assert(es.take(k as int).last() == es[i]);
        lemma_meta_bytes_len(es[i], off);
        assert(written_metas(name, es).take(k as int) =~= written_metas(name, es).take(i).push(
            written_metas(name, es)[i],
        ));
    }
}

/// A campaign written in the Definitive Edition format reads back with its version, its
/// name and its scenarios' names, and each scenario's entry points at its bytes, when the
/// encoding that is detected decodes the names back.
pub proof fn law_campaign_read_of_write(name: Seq<char>, es: Seq<EntryView>)
    requires
        campaign_writable(AOE1_DE@, name, es),
        names_read_back(name, es),
    ensures
        crate::cpx::read::campaign_at(campaign_bytes(AOE1_DE@, name, es)) == Ok::<
            (Seq<u8>, Seq<char>, Seq<crate::cpx::MetaView>),
            crate::cpx::ReadCampaignError,
        >((AOE1_DE@, name, written_metas(name, es))),
        forall|i: int|
            0 <= i < es.len() ==> crate::cpx::read::scenario_bytes(
                campaign_bytes(AOE1_DE@, name, es),
                #[trigger] written_metas(name, es)[i],
            ) == es[i].2,
{
    let v = AOE1_DE@;
    let d = campaign_bytes(v, name, es);
    let h = meta_size(v, name, Seq::<EntryView>::empty());
    let s = meta_size(v, name, es);
    lemma_pow256_values();
    crate::codec::lemma_le_bytes_len(es.len(), 4);
    crate::codec::lemma_le_bytes_len(0x0A60, 2);
    crate::codec::lemma_le_bytes_len(encode_utf8(name).len(), 2);
    lemma_metas_len(name, es, s);
    let hb = campaign_header_bytes(v, name, es.len());
    assert(d =~= hb + metas_bytes(v, es, s) + entries_data(es));
    // The header.
    reveal(crate::cpx::read::campaign_header_at);
    assert(d.subrange(0, 4) =~= v);
    assert(d.subrange(4, 8) =~= le_bytes(es.len(), 4));
    lemma_field(d, 4, es.len(), 4);
    assert(d.subrange(8, (8 + 4 + encode_utf8(name).len()) as int) =~= var_string_bytes(name));
    lemma_var_string_at(d, 8, name);
    // The entries.
    lemma_metas_read(name, es, es.len());
    assert(es.take(es.len() as int) =~= es);
    assert(written_metas(name, es).take(es.len() as int) =~= written_metas(name, es));
    // The bytes.
    assert forall|i: int| 0 <= i < es.len() implies crate::cpx::read::scenario_bytes(
        d,
        #[trigger] written_metas(name, es)[i],
    ) == es[i].2 by {
        lemma_entries_data_at(es, i);
        let di = entries_data(es.take(i)).len() as int;
        let n = es[i].2.len() as int;
        assert(d.subrange(s + di, s + di + n) =~= entries_data(es).subrange(di, di + n));
    }
}


/// A name that a classic campaign stores in a fixed field of `len` bytes and reads back:
/// it is not empty, fits with room for its terminating NUL, holds no NUL byte, and the
/// encoding that is detected decodes it back.
pub open spec fn classic_name_ok(s: Seq<char>, len: nat) -> bool {
    &&& 0 < encode_utf8(s).len() < len
    &&& forall|j: int| 0 <= j < encode_utf8(s).len() ==> #[trigger] encode_utf8(s)[j] != 0
    &&& decodes_back(s)
}

/// What a classic campaign needs for it to read back: a version of neither Definitive
/// Edition, sizes and offsets that fit, and names that read back.
pub open spec fn classic_read_back(version: Seq<u8>, name: Seq<char>, es: Seq<EntryView>) -> bool {
    &&& version.len() == 4
    &&& version != AOE1_DE@
    &&& version != crate::cpx::AOE2_DE@
    &&& campaign_writable(version, name, es)
    &&& classic_name_ok(name, 256)
    &&& forall|i: int|
        0 <= i < es.len() ==> classic_name_ok((#[trigger] es[i]).0, 255) && classic_name_ok(es[i].1, 255)
}

/// The entries that reading back a classic campaign gives: each scenario's size, the offset
/// of its bytes, its name and its file name.
pub open spec fn classic_written_metas(name: Seq<char>, es: Seq<EntryView>) -> Seq<crate::cpx::MetaView> {
    Seq::new(
        es.len(),
        |i: int|
            (
                es[i].2.len() as usize,
                (264 + 520 * es.len() + entries_data(es.take(i)).len()) as usize,
                es[i].0,
                es[i].1,
            ),
    )
}

proof fn lemma_nul_index_at(b: Seq<u8>, n: int, i: int)
    requires
        0 <= i <= n < b.len(),
        forall|j: int| 0 <= j < n ==> b[j] != 0,
        b[n] == 0,
    ensures
        crate::codec::nul_index(b, i) == n,
    decreases n - i,
{
    if i < n {
        lemma_nul_index_at(b, n, i + 1);
    }
}

/// A name written in a fixed field reads back.
proof fn lemma_fixed_string_read(d: Seq<u8>, p: int, s: Seq<char>, len: nat)
    requires
        0 <= p,
        p + len <= d.len(),
        classic_name_ok(s, len),
        d.subrange(p, p + len) == fixed_string_bytes(s, len),
    ensures
        crate::cpx::read::fixed_string_at(d, p, len) == Ok::<(Option<Seq<char>>, int), crate::cpx::ReadCampaignError>(
            (Some(s), p + len),
        ),
{
    let enc = encode_utf8(s);
    let f = d.subrange(p, p + len);
    assert(f[enc.len() as int] == 0);
    assert forall|j: int| 0 <= j < enc.len() implies f[j] != 0 by {
        assert(f[j] == enc[j]);
    }
    lemma_nul_index_at(f, enc.len() as int, 0);
    assert(crate::codec::until_nul(f) =~= enc);
}

/// Reading the entry that was written for a scenario of a classic campaign gives back its
/// size, offset and names.
proof fn lemma_classic_meta_at(d: Seq<u8>, p: int, v: Seq<u8>, e: EntryView, off: nat)
    requires
        0 <= p,
        v != AOE1_DE@,
        v != crate::cpx::AOE2_DE@,
        classic_name_ok(e.0, 255),
        classic_name_ok(e.1, 255),
        e.2.len() < i32::MAX,
        off < i32::MAX,
        p + 520 <= d.len(),
        d.subrange(p, p + 520) == meta_bytes(v, e, off),
    ensures
        meta_bytes(v, e, off).len() == 520,
        crate::cpx::read::meta_at(d, p, v) == Ok::<(crate::cpx::MetaView, int), crate::cpx::ReadCampaignError>(
            ((e.2.len() as usize, off as usize, e.0, e.1), p + 520),
        ),
{
    reveal(crate::cpx::read::meta_at);
    lemma_pow256_values();
    crate::codec::lemma_le_bytes_len(e.2.len(), 4);
    crate::codec::lemma_le_bytes_len(off, 4);
    let w = meta_bytes(v, e, off);
    assert(w.len() == 520);
    assert(d.subrange(p, p + 4) =~= w.subrange(0, 4));
    assert(w.subrange(0, 4) =~= le_bytes(e.2.len(), 4));
    lemma_field(d, p, e.2.len(), 4);
    assert(d.subrange(p + 4, p + 8) =~= w.subrange(4, 8));
    assert(w.subrange(4, 8) =~= le_bytes(off, 4));
    lemma_field(d, p + 4, off, 4);
    assert(d.subrange(p + 8, p + 263) =~= w.subrange(8, 263));
    assert(w.subrange(8, 263) =~= fixed_string_bytes(e.0, 255));
    lemma_fixed_string_read(d, p + 8, e.0, 255);
    assert(d.subrange(p + 263, p + 518) =~= w.subrange(263, 518));
    assert(w.subrange(263, 518) =~= fixed_string_bytes(e.1, 255));
    lemma_fixed_string_read(d, p + 263, e.1, 255);
}

/// The entries of a classic campaign take 520 bytes each, in order.
proof fn lemma_classic_metas_bytes(v: Seq<u8>, es: Seq<EntryView>, start: nat, i: int)
    requires
        v != AOE1_DE@,
        forall|k: int| 0 <= k < es.len() ==> classic_name_ok((#[trigger] es[k]).0, 255) && classic_name_ok(es[k].1, 255),
        0 <= i <= es.len(),
    ensures
        metas_bytes(v, es, start).len() == 520 * es.len(),
        i < es.len() ==> metas_bytes(v, es, start).subrange(520 * i, 520 * i + 520) == meta_bytes(
            v,
            es[i],
            start + entries_data(es.take(i)).len(),
        ),
    decreases es.len(),
{
    lemma_pow256_values();
    if es.len() > 0 {
        let init = es.drop_last();
        assert(forall|k: int| 0 <= k < init.len() ==> #[trigger] init[k] == es[k]);
        let last = meta_bytes(v, es.last(), start + entries_data(init).len());
        crate::codec::lemma_le_bytes_len(es.last().2.len(), 4);
        crate::codec::lemma_le_bytes_len(start + entries_data(init).len(), 4);
        assert(last.len() == 520);
        let m = metas_bytes(v, es, start);
        if i < es.len() - 1 {
            lemma_classic_metas_bytes(v, init, start, i);
            assert(init.take(i) =~= es.take(i));
            assert(m.subrange(520 * i, 520 * i + 520) =~= metas_bytes(v, init, start).subrange(
                520 * i,
                520 * i + 520,
            ));
        } else {
            lemma_classic_metas_bytes(v, init, start, 0);
            assert(es.take(es.len() - 1) =~= init);
            if i == es.len() - 1 {
                assert(m.subrange(520 * i, 520 * i + 520) =~= last);
            }
        }
    }
}

proof fn lemma_classic_metas_read(v: Seq<u8>, name: Seq<char>, es: Seq<EntryView>, k: nat)
    requires
        classic_read_back(v, name, es),
        k <= es.len(),
    ensures
        crate::cpx::read::metas_at(campaign_bytes(v, name, es), 264, v, k) == Ok::<
            (Seq<crate::cpx::MetaView>, int),
            crate::cpx::ReadCampaignError,
        >((classic_written_metas(name, es).take(k as int), (264 + 520 * k) as int)),
    decreases k,
{
    let d = campaign_bytes(v, name, es);
    if k == 0 {
        assert(classic_written_metas(name, es).take(0) =~= Seq::<crate::cpx::MetaView>::empty());
    } else {
        let i = (k - 1) as int;
        lemma_classic_metas_read(v, name, es, (k - 1) as nat);
        lemma_meta_size_classic(v, name, es);
        let s = meta_size(v, name, es);
        let off = s + entries_data(es.take(i)).len();
        lemma_classic_metas_bytes(v, es, s, i);
        lemma_entries_data_at(es, i);
        lemma_pow256_values();
        crate::codec::lemma_le_bytes_len(es.len(), 4);
        let hb = campaign_header_bytes(v, name, es.len());
        assert(hb.len() == 264);
        let m = metas_bytes(v, es, s);
        assert(d =~= hb + m + entries_data(es));
        let p = 264 + 520 * i;
        assert(d.subrange(p, p + 520) =~= m.subrange(520 * i, 520 * i + 520));
        lemma_classic_meta_at(d, p, v, es[i], off);
        assert(classic_written_metas(name, es).take(k as int) =~= classic_written_metas(name, es).take(
            i,
        ).push(classic_written_metas(name, es)[i]));
    }
}

/// A campaign written in the classic format reads back with its version, its name and its
/// scenarios' names, and each scenario's entry points at its bytes, when the names are not
/// empty, hold no NUL byte, and the encoding that is detected decodes them back.
pub proof fn law_classic_campaign_read_of_write(v: Seq<u8>, name: Seq<char>, es: Seq<EntryView>)
    requires
        classic_read_back(v, name, es),
    ensures
        crate::cpx::read::campaign_at(campaign_bytes(v, name, es)) == Ok::<
            (Seq<u8>, Seq<char>, Seq<crate::cpx::MetaView>),
            crate::cpx::ReadCampaignError,
        >((v, name, classic_written_metas(name, es))),
        forall|i: int|
            0 <= i < es.len() ==> crate::cpx::read::scenario_bytes(
                campaign_bytes(v, name, es),
                #[trigger] classic_written_metas(name, es)[i],
            ) == es[i].2,
{
    let d = campaign_bytes(v, name, es);
    lemma_pow256_values();
    lemma_meta_size_classic(v, name, es);
    let s = meta_size(v, name, es);
    crate::codec::lemma_le_bytes_len(es.len(), 4);
    lemma_classic_metas_bytes(v, es, s, 0);
    let hb = campaign_header_bytes(v, name, es.len());
    assert(hb.len() == 264);
    assert(d =~= hb + metas_bytes(v, es, s) + entries_data(es));
    // The header.
    reveal(crate::cpx::read::campaign_header_at);
    assert(d.subrange(0, 4) =~= v);
    assert(d.subrange(4, 260) =~= fixed_string_bytes(name, 256));
    lemma_fixed_string_read(d, 4, name, 256);
    assert(d.subrange(260, 264) =~= le_bytes(es.len(), 4));
    lemma_field(d, 260, es.len(), 4);
    // The entries.
    lemma_classic_metas_read(v, name, es, es.len());
    assert(classic_written_metas(name, es).take(es.len() as int) =~= classic_written_metas(name, es));
    // The bytes.
    assert forall|i: int| 0 <= i < es.len() implies crate::cpx::read::scenario_bytes(
        d,
        #[trigger] classic_written_metas(name, es)[i],
    ) == es[i].2 by {
        lemma_entries_data_at(es, i);
        let di = entries_data(es.take(i)).len() as int;
        let n = es[i].2.len() as int;
        assert(d.subrange(s + di, s + di + n) =~= entries_data(es).subrange(di, di + n));
    }
}

} // verus!
