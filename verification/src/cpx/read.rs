//! Reading campaign files.
use crate::codec::{
    bytes_until_nul, le_at, read_bytes, read_i32_le, read_u16_le, read_u32_le, read_u64_le,
    signed_of, until_nul, ReadError,
};
use crate::cpx::{MetaView, ScenarioMeta, AOE1_DE, AOE2_DE};
use vstd::prelude::*;
use vstd::string::StringSliceAdditionalSpecFns;
use vstd::utf8::encode_utf8;

verus! {

/// The name of the encoding that `chardet::detect` finds in some bytes.
pub uninterp spec fn detected_charset(bytes: Seq<u8>) -> Seq<char>;

/// What `encoding_rs` decodes from some bytes with the encoding of a label: the text and
/// whether there were malformed sequences; `None` when no encoding has that label.
pub uninterp spec fn labelled_decode(label: Seq<u8>, bytes: Seq<u8>) -> Option<(Seq<char>, bool)>;

/// A byte that `chardet` counts as a high byte: one with the top bit set, but for 0xA0.
pub open spec fn chardet_high_byte(b: u8) -> bool {
    b >= 0x80 && b != 0xA0
}

/// Bytes that `chardet::detect` can take: those that hold no ESC byte (0x1B), or some high
/// byte. Bytes with an ESC and no high byte leave the detector in its escape state unless
/// its escape prober recognises a sequence, and `close` then reaches `unreachable!()`; all
/// of them are left out here.
pub open spec fn chardet_accepts(bytes: Seq<u8>) -> bool {
    (forall|i: int| 0 <= i < bytes.len() ==> bytes[i] != 0x1B)
        || (exists|i: int| 0 <= i < bytes.len() && #[trigger] chardet_high_byte(bytes[i]))
}

/// `chardet::detect`: the name of the encoding that it detects (its confidence and language
/// are not used). The name is `detected_charset` of the bytes.
#[verifier::external_body]
fn detect_charset(bytes: &[u8]) -> (r: String)
    requires
        chardet_accepts(bytes@),
    ensures
        r@ == detected_charset(bytes@),
{
    chardet::detect(bytes).0
}

/// `encoding_rs::Encoding::for_label` and that encoding's `decode` (with BOM sniffing, and
/// malformed sequences replaced): the text and the flag for malformed sequences, or `None`
/// when no encoding has the label. The result is `labelled_decode` of the label and bytes.
/// The lookup and the decoding share this item because the `&'static Encoding` that passes
/// between them is an opaque handle. The panic that the documentation of `decode` mentions,
/// when the size of the output buffer overflows `usize`, is not excluded here.
#[verifier::external_body]
fn decode_labelled(label: &[u8], bytes: &[u8]) -> (r: Option<(String, bool)>)
    ensures
        match r {
            Some((s, failed)) => labelled_decode(label@, bytes@) == Some((s@, failed)),
            None => labelled_decode(label@, bytes@) is None,
        },
{
    match encoding_rs::Encoding::for_label(label) {
        Some(encoding) => {
            let (decoded, _enc, failed) = encoding.decode(bytes);
            Some((decoded.into_owned(), failed))
        },
        None => None,
    }
}

/// Type for errrors that could occur while reading/parsing a campaign file.
#[derive(Debug, Clone, Copy, PartialEq, Eq)]
pub enum ReadCampaignError {
    /// A string could not be decoded, its encoding may be unknown or it may be binary nonsense.
    DecodeStringError,
    /// The input ended too early.
    IoError,
    /// The campaign file or a scenario inside it is missing a user-facing name value.
    MissingNameError,
    /// The requested scenario file does not exist in this campaign file.
    NotFoundError,
}

/// The text of a string with unknown encoding: none for no bytes; otherwise what the
/// encoding that `chardet` detects decodes, unless `chardet` cannot take the bytes, no
/// encoding has that name, or the bytes are malformed for it.
pub open spec fn decoded_text(b: Seq<u8>) -> Option<Seq<char>> {
    if b.len() == 0 {
        Some(Seq::empty())
    } else if !chardet_accepts(b) {
        None
    } else {
        match labelled_decode(encode_utf8(detected_charset(b)), b) {
            Some((t, false)) => Some(t),
            _ => None,
        }
    }
}

/// Whether `chardet` can take these bytes.
fn detectable(bytes: &[u8]) -> (r: bool)
    ensures
        r == chardet_accepts(bytes@),
{
    let mut has_esc = false;
    let mut i: usize = 0;
    while i < bytes.len()
        invariant
            i <= bytes.len(),
            has_esc <==> exists|j: int| 0 <= j < i && bytes@[j] == 0x1B,
            forall|j: int| 0 <= j < i ==> !chardet_high_byte(#[trigger] bytes@[j]),
        decreases bytes.len() - i,
    {
        if bytes[i] >= 0x80 && bytes[i] != 0xA0 {
            assert(chardet_high_byte(bytes@[i as int]));
            return true;
        }
        if bytes[i] == 0x1B {
            has_esc = true;
        }
        i = i + 1;
    }
    !has_esc
}

/// Decode a string with unknown encoding; bytes that `chardet` cannot take give an error.
fn decode_str(bytes: &[u8]) -> (r: Result<String, ReadCampaignError>)
    ensures
        match decoded_text(bytes@) {
            Some(t) => r matches Ok(s) && s@ == t,
            None => r == Err::<String, ReadCampaignError>(ReadCampaignError::DecodeStringError),
        },
{
    if bytes.len() == 0 {
        return Ok(String::new());
    }
    if !detectable(bytes) {
        return Err(ReadCampaignError::DecodeStringError);
    }
    let encoding_name = detect_charset(bytes);
    match decode_labelled(encoding_name.as_str().as_bytes(), bytes) {
        Some((decoded, failed)) => {
            if failed {
                Err(ReadCampaignError::DecodeStringError)
            } else {
                Ok(decoded)
            }
        },
        None => Err(ReadCampaignError::DecodeStringError),
    }
}

/// The fixed-size string of `len` bytes at `p`: its text up to the first NUL (none when
/// that is empty), and the position after it.
pub open spec fn fixed_string_at(d: Seq<u8>, p: int, len: nat) -> Result<(Option<Seq<char>>, int), ReadCampaignError> {
    if p + len > d.len() {
        Err(ReadCampaignError::IoError)
    } else {
        let b = until_nul(d.subrange(p, p + len));
        if b.len() == 0 {
            Ok((None, p + len))
        } else {
            match decoded_text(b) {
                Some(t) => Ok((Some(t), p + len)),
                None => Err(ReadCampaignError::DecodeStringError),
            }
        }
    }
}

/// Read a string stored in `len` bytes, padded with NULs: its text up to the first NUL,
/// or `None` when that is empty.
pub fn read_fixed_str(input: &[u8], pos: usize, len: usize) -> (r: Result<(Option<String>, usize), ReadCampaignError>)
    ensures
        match fixed_string_at(input@, pos as int, len as nat) {
            Ok((t, q)) => r matches Ok((s, p)) && p == q && match (s, t) {
                (Some(s), Some(t)) => s@ == t,
                (None, None) => true,
                _ => false,
            },
            Err(e) => r == Err::<(Option<String>, usize), ReadCampaignError>(e),
        },
{
    let (bytes, p) = match read_bytes(input, pos, len) {
        Ok(x) => x,
        Err(_) => {
            return Err(ReadCampaignError::IoError);
        },
    };
    let text = bytes_until_nul(bytes.as_slice());
    if text.len() == 0 {
        return Ok((None, p));
    }
    let s = decode_str(text.as_slice())?;
    Ok((Some(s), p))
}


/// The length-prefixed string at `p` (HD Edition and later): the marker `0x0A60`, a
/// 16-bit byte length and the bytes; its text and the position after it.
pub open spec fn var_string_at(d: Seq<u8>, p: int) -> Result<(Seq<char>, int), ReadCampaignError> {
    if p + 2 > d.len() {
        Err(ReadCampaignError::IoError)
    } else if le_at(d, p, 2) != 0x0A60 {
        Err(ReadCampaignError::DecodeStringError)
    } else if p + 4 > d.len() {
        Err(ReadCampaignError::IoError)
    } else {
        let n = le_at(d, p + 2, 2);
        if p + 4 + n > d.len() {
            Err(ReadCampaignError::IoError)
        } else {
            match decoded_text(d.subrange(p + 4, p + 4 + n)) {
                Some(t) => Ok((t, p + 4 + n)),
                None => Err(ReadCampaignError::DecodeStringError),
            }
        }
    }
}

/// Read a length-prefixed string.
fn read_hd_or_later_string(input: &[u8], pos: usize) -> (r: Result<(String, usize), ReadCampaignError>)
    ensures
        match var_string_at(input@, pos as int) {
            Ok((t, q)) => r matches Ok((s, p)) && s@ == t && p == q,
            Err(e) => r == Err::<(String, usize), ReadCampaignError>(e),
        },
{
    let (open, p) = match read_u16_le(input, pos) {
        Ok(x) => x,
        Err(_) => {
            return Err(ReadCampaignError::IoError);
        },
    };
    if open != 0x0A60 {
        return Err(ReadCampaignError::DecodeStringError);
    }
    let (len, p) = match read_u16_le(input, p) {
        Ok(x) => x,
        Err(_) => {
            return Err(ReadCampaignError::IoError);
        },
    };
    let (bytes, p) = match read_bytes(input, p, len as usize) {
        Ok(x) => x,
        Err(_) => {
            return Err(ReadCampaignError::IoError);
        },
    };
    let s = decode_str(bytes.as_slice())?;
    Ok((s, p))
}

/// Compares two versions.
pub fn same_version(a: [u8; 4], b: [u8; 4]) -> (r: bool)
    ensures
        r == (a@ == b@),
{
    let r = a[0] == b[0] && a[1] == b[1] && a[2] == b[2] && a[3] == b[3];
    assert(r ==> a@ =~= b@);
    r
}

/// The header of the campaign file `d`: version, name, number of scenarios, and the
/// position after it. (The packages that a "2.00" campaign depends on are skipped.)
#[verifier::opaque]
pub open spec fn campaign_header_at(d: Seq<u8>) -> Result<(Seq<u8>, Seq<char>, nat, int), ReadCampaignError> {
    if d.len() < 4 {
        Err(ReadCampaignError::IoError)
    } else {
        let v = d.subrange(0, 4);
        if v == AOE1_DE@ {
            if d.len() < 8 {
                Err(ReadCampaignError::IoError)
            } else {
                match var_string_at(d, 8) {
                    Ok((name, q)) => Ok((v, name, le_at(d, 4, 4), q)),
                    Err(e) => Err(e),
                }
            }
        } else if v == AOE2_DE@ && d.len() < 8 {
            Err(ReadCampaignError::IoError)
        } else {
            let p: int = if v == AOE2_DE@ {
                (8 + 4 * le_at(d, 4, 4)) as int
            } else {
                4
            };
            if p > d.len() {
                Err(ReadCampaignError::IoError)
            } else {
                match fixed_string_at(d, p, 256) {
                    Err(e) => Err(e),
                    Ok((None, _)) => Err(ReadCampaignError::MissingNameError),
                    Ok((Some(name), q)) => if q + 4 > d.len() {
                        Err(ReadCampaignError::IoError)
                    } else {
                        Ok((v, name, le_at(d, q, 4), q + 4))
                    },
                }
            }
        }
    }
}

/// Campaign header.
#[derive(Debug, Clone)]
pub(crate) struct CampaignHeader {
    /// File format version.
    pub(crate) version: [u8; 4],
    /// Name of the campaign.
    pub(crate) name: String,
    /// Amount of scenario files in this campaign.
    pub(crate) num_scenarios: usize,
}

fn read_campaign_header(input: &[u8]) -> (r: Result<(CampaignHeader, usize), ReadCampaignError>)
    ensures
        match campaign_header_at(input@) {
            Ok((v, name, n, q)) => r matches Ok((h, p)) && h.version@ == v && h.name@ == name
                && h.num_scenarios == n && p == q,
            Err(e) => r is Err && r->Err_0 == e,
        },
{
    proof {
        crate::codec::lemma_pow256_values();
        reveal(campaign_header_at);
    }
    if input.len() < 4 {
        return Err(ReadCampaignError::IoError);
    }
    let version: [u8; 4] = [input[0], input[1], input[2], input[3]];
    assert(version@ =~= input@.subrange(0, 4));
    if same_version(version, AOE1_DE) {
        let (num, p) = match read_u32_le(input, 4) {
            Ok(x) => x,
            Err(_) => {
                return Err(ReadCampaignError::IoError);
            },
        };
        let (name, p) = read_hd_or_later_string(input, p)?;
        return Ok((CampaignHeader { version, name, num_scenarios: num as usize }, p));
    }
    let mut p: usize = 4;
    if same_version(version, AOE2_DE) {
        let (num_dependencies, q) = match read_u32_le(input, 4) {
            Ok(x) => x,
            Err(_) => {
                return Err(ReadCampaignError::IoError);
            },
        };
        p = q;
        let mut i: u32 = 0;
        while i < num_dependencies
            invariant
                i <= num_dependencies,
                num_dependencies == le_at(input@, 4, 4),
                version@ == input@.subrange(0, 4),
                version@ == AOE2_DE@,
                version@ != AOE1_DE@,
                8 <= input.len(),
                p == 8 + 4 * i,
                p <= input.len(),
            decreases num_dependencies - i,
        {
            let (_dependency, q) = match read_i32_le(input, p) {
                Ok(x) => x,
                Err(_) => {
                    proof {
                        reveal(campaign_header_at);
                    }
                    return Err(ReadCampaignError::IoError);
                },
            };
            p = q;
            i = i + 1;
        }
    }
    let (name, q) = read_fixed_str(input, p, 256)?;
    let name = match name {
        Some(n) => n,
        None => {
            return Err(ReadCampaignError::MissingNameError);
        },
    };
    let (num, q) = match read_u32_le(input, q) {
        Ok(x) => x,
        Err(_) => {
            return Err(ReadCampaignError::IoError);
        },
    };
    Ok((CampaignHeader { version, name, num_scenarios: num as usize }, q))
}


/// The entry of a scenario at `p`, in the format of version `v`, and the position after it.
#[verifier::opaque]
pub open spec fn meta_at(d: Seq<u8>, p: int, v: Seq<u8>) -> Result<(MetaView, int), ReadCampaignError> {
    if v == AOE2_DE@ {
        if p + 8 > d.len() {
            Err(ReadCampaignError::IoError)
        } else {
            match var_string_at(d, p + 8) {
                Err(e) => Err(e),
                Ok((name, q)) => match var_string_at(d, q) {
                    Err(e) => Err(e),
                    Ok((filename, r)) => Ok(
                        (
                            (le_at(d, p, 4) as u32 as usize, le_at(d, p + 4, 4) as u32 as usize, name, filename),
                            r,
                        ),
                    ),
                },
            }
        }
    } else if v == AOE1_DE@ {
        if p + 16 > d.len() {
            Err(ReadCampaignError::IoError)
        } else {
            match var_string_at(d, p + 16) {
                Err(e) => Err(e),
                Ok((name, q)) => match var_string_at(d, q) {
                    Err(e) => Err(e),
                    Ok((filename, r)) => Ok(
                        (
                            (le_at(d, p, 8) as u64 as usize, le_at(d, p + 8, 8) as u64 as usize, name, filename),
                            r,
                        ),
                    ),
                },
            }
        }
    } else {
        if p + 8 > d.len() {
            Err(ReadCampaignError::IoError)
        } else {
            match fixed_string_at(d, p + 8, 255) {
                Err(e) => Err(e),
                Ok((None, _)) => Err(ReadCampaignError::MissingNameError),
                Ok((Some(name), q)) => match fixed_string_at(d, q, 255) {
                    Err(e) => Err(e),
                    Ok((None, _)) => Err(ReadCampaignError::MissingNameError),
                    Ok((Some(filename), r)) => if r + 2 > d.len() {
                        Err(ReadCampaignError::IoError)
                    } else {
                        Ok(
                            (
                                (
                                    (signed_of(le_at(d, p, 4), 4) as i32) as usize,
                                    (signed_of(le_at(d, p + 4, 4), 4) as i32) as usize,
                                    name,
                                    filename,
                                ),
                                r + 2,
                            ),
                        )
                    },
                },
            }
        }
    }
}

/// A campaign file starts with its 4-byte version. In the "1.10" format the number of
/// scenarios follows as a little-endian 32-bit number, then the name as a length-prefixed
/// string. In the classic formats the name fills 256 bytes after the version, and the number
/// of scenarios follows it, so the entries start at byte 264.
pub proof fn law_campaign_header_layout(d: Seq<u8>)
    ensures
        campaign_header_at(d) matches Ok((v, name, n, q)) ==> {
            &&& v == d.subrange(0, 4)
            &&& v == AOE1_DE@ ==> n == le_at(d, 4, 4) && var_string_at(d, 8) == Ok::<
                (Seq<char>, int),
                ReadCampaignError,
            >((name, q))
            &&& (v != AOE1_DE@ && v != AOE2_DE@) ==> n == le_at(d, 260, 4) && q == 264
                && fixed_string_at(d, 4, 256) == Ok::<(Option<Seq<char>>, int), ReadCampaignError>(
                (Some(name), 260),
            )
        },
{
    reveal(campaign_header_at);
}

/// Every scenario entry starts with the scenario's size and then the offset of its bytes:
/// little-endian 32-bit numbers in the "2.00" format (followed by the name and the file name
/// as length-prefixed strings), 64-bit ones in the "1.10" format, and 32-bit numbers in the
/// classic formats (read as signed, so those below 2^31 are kept).
pub proof fn law_meta_size_then_offset(d: Seq<u8>, p: int, v: Seq<u8>)
    requires
        0 <= p,
    ensures
        meta_at(d, p, v) matches Ok((m, _)) ==> {
            if v == AOE2_DE@ {
                &&& m.0 as int == le_at(d, p, 4)
                &&& m.1 as int == le_at(d, p + 4, 4)
                &&& (var_string_at(d, p + 8) matches Ok((name, q)) && name == m.2 && (var_string_at(
                    d,
                    q,
                ) matches Ok((filename, _)) && filename == m.3))
            } else if v == AOE1_DE@ {
                (le_at(d, p, 8) <= usize::MAX ==> m.0 as int == le_at(d, p, 8))
                    && (le_at(d, p + 8, 8) <= usize::MAX ==> m.1 as int == le_at(d, p + 8, 8))
            } else {
                (le_at(d, p, 4) < 0x8000_0000 ==> m.0 as int == le_at(d, p, 4))
                    && (le_at(d, p + 4, 4) < 0x8000_0000 ==> m.1 as int == le_at(d, p + 4, 4))
            }
        },
{
    reveal(meta_at);
    crate::codec::lemma_pow256_values();
    if meta_at(d, p, v) is Ok {
        if v == AOE1_DE@ {
            assert(0 <= p && p + 16 <= d.len());
            crate::codec::lemma_le_value_bound(d.subrange(p, p + 8));
            crate::codec::lemma_le_value_bound(d.subrange(p + 8, p + 16));
        } else {
            assert(0 <= p && p + 8 <= d.len());
            crate::codec::lemma_le_value_bound(d.subrange(p, p + 4));
            crate::codec::lemma_le_value_bound(d.subrange(p + 4, p + 8));
        }
    }
}

/// The `n` scenario entries at `p`, in the format of version `v`, and the position after them.
pub open spec fn metas_at(d: Seq<u8>, p: int, v: Seq<u8>, n: nat) -> Result<(Seq<MetaView>, int), ReadCampaignError>
    decreases n,
{
    if n == 0 {
        Ok((Seq::empty(), p))
    } else {
        match metas_at(d, p, v, (n - 1) as nat) {
            Err(e) => Err(e),
            Ok((ms, q)) => match meta_at(d, q, v) {
                Err(e) => Err(e),
                Ok((m, r)) => Ok((ms.push(m), r)),
            },
        }
    }
}

/// An entry that cannot be read stops the reading of later entries with its error.
proof fn lemma_metas_at_stuck(d: Seq<u8>, p: int, v: Seq<u8>, i: nat, n: nat, e: ReadCampaignError)
    requires
        i < n,
        metas_at(d, p, v, i) matches Ok((_, q)) && meta_at(d, q, v) == Err::<(MetaView, int), ReadCampaignError>(e),
    ensures
        metas_at(d, p, v, n) == Err::<(Seq<MetaView>, int), ReadCampaignError>(e),
    decreases n,
{
    if n > i + 1 {
        lemma_metas_at_stuck(d, p, v, i, (n - 1) as nat, e);
    }
}

/// The campaign file `d`: version, name and scenario entries.
pub open spec fn campaign_at(d: Seq<u8>) -> Result<(Seq<u8>, Seq<char>, Seq<MetaView>), ReadCampaignError> {
    match campaign_header_at(d) {
        Err(e) => Err(e),
        Ok((v, name, n, q)) => match metas_at(d, q, v, n) {
            Err(e) => Err(e),
            Ok((ms, _)) => Ok((v, name, ms)),
        },
    }
}

fn read_scenario_meta(input: &[u8], pos: usize, version: [u8; 4]) -> (r: Result<(ScenarioMeta, usize), ReadCampaignError>)
    ensures
        match meta_at(input@, pos as int, version@) {
            Ok((m, q)) => r matches Ok((meta, p)) && meta@ == m && p == q,
            Err(e) => r is Err && r->Err_0 == e,
        },
{
    proof {
        crate::codec::lemma_pow256_values();
        reveal(meta_at);
    }
    if same_version(version, AOE2_DE) {
        let (size, p) = match read_u32_le(input, pos) {
            Ok(x) => x,
            Err(_) => {
                return Err(ReadCampaignError::IoError);
            },
        };
        let (offset, p) = match read_u32_le(input, p) {
            Ok(x) => x,
            Err(_) => {
                return Err(ReadCampaignError::IoError);
            },
        };
        let (name, p) = read_hd_or_later_string(input, p)?;
        let (filename, p) = read_hd_or_later_string(input, p)?;
        Ok((ScenarioMeta { size: size as usize, offset: offset as usize, name, filename }, p))
    } else if same_version(version, AOE1_DE) {
        let (size, p) = match read_u64_le(input, pos) {
            Ok(x) => x,
            Err(_) => {
                return Err(ReadCampaignError::IoError);
            },
        };
        let (offset, p) = match read_u64_le(input, p) {
            Ok(x) => x,
            Err(_) => {
                return Err(ReadCampaignError::IoError);
            },
        };
        let (name, p) = read_hd_or_later_string(input, p)?;
        let (filename, p) = read_hd_or_later_string(input, p)?;
        Ok((ScenarioMeta { size: size as usize, offset: offset as usize, name, filename }, p))
    } else {
        let (size, p) = match read_i32_le(input, pos) {
            Ok(x) => x,
            Err(_) => {
                return Err(ReadCampaignError::IoError);
            },
        };
        let (offset, p) = match read_i32_le(input, p) {
            Ok(x) => x,
            Err(_) => {
                return Err(ReadCampaignError::IoError);
            },
        };
        let (name, p) = read_fixed_str(input, p, 255)?;
        let name = match name {
            Some(n) => n,
            None => {
                return Err(ReadCampaignError::MissingNameError);
            },
        };
        let (filename, p) = read_fixed_str(input, p, 255)?;
        let filename = match filename {
            Some(n) => n,
            None => {
                return Err(ReadCampaignError::MissingNameError);
            },
        };
        let (_padding, p) = match read_bytes(input, p, 2) {
            Ok(x) => x,
            Err(_) => {
                return Err(ReadCampaignError::IoError);
            },
        };
        Ok((ScenarioMeta { size: size as usize, offset: offset as usize, name, filename }, p))
    }
}


/// A campaign file containing scenario files.
#[derive(Debug, Clone)]
pub struct Campaign {
    data: Vec<u8>,
    header: CampaignHeader,
    entries: Vec<ScenarioMeta>,
}

/// The entries of a sequence of scenario metadata.
pub open spec fn metas_view(v: Seq<ScenarioMeta>) -> Seq<MetaView> {
    v.map_values(|m: ScenarioMeta| m@)
}

/// The fields of a campaign: its file's bytes, version, name and scenario entries.
pub type CampaignView = (Seq<u8>, Seq<u8>, Seq<char>, Seq<MetaView>);

impl View for Campaign {
    type V = CampaignView;

    closed spec fn view(&self) -> CampaignView {
        (self.data@, self.header.version@, self.header.name@, metas_view(self.entries@))
    }
}

/// The bytes that an entry points at in the campaign file `d`, as far as the file goes.
pub open spec fn scenario_bytes(d: Seq<u8>, m: MetaView) -> Seq<u8> {
    let start = if m.1 < d.len() {
        m.1 as int
    } else {
        d.len() as int
    };
    let end = if start + m.0 <= d.len() {
        start + m.0
    } else {
        d.len() as int
    };
    d.subrange(start, end)
}

/// The first entry, from position `from` on, with the file name `filename`.
pub open spec fn first_named(ms: Seq<MetaView>, filename: Seq<char>, from: int) -> Option<int>
    decreases ms.len() - from,
{
    if from < 0 || from >= ms.len() {
        None
    } else if ms[from].3 == filename {
        Some(from)
    } else {
        first_named(ms, filename, from + 1)
    }
}

/// Copies bytes `start..end` of `data`.
fn copy_range(data: &[u8], start: usize, end: usize) -> (v: Vec<u8>)
    requires
        start <= end <= data.len(),
    ensures
        v@ == data@.subrange(start as int, end as int),
{
    let mut v: Vec<u8> = Vec::new();
    let mut i: usize = start;
    while i < end
        invariant
            start <= i <= end <= data.len(),
            v@ == data@.subrange(start as int, i as int),
        decreases end - i,
    {
        v.push(data[i]);
        i = i + 1;
        assert(v@ =~= data@.subrange(start as int, i as int));
    }
    v
}

impl Campaign {
    /// Create a campaign instance from the bytes of a campaign file.
    ///
    /// This immediately reads the campaign header and scenario metadata, but not the scenario
    /// files themselves.
    pub fn from(input: Vec<u8>) -> (r: Result<Self, ReadCampaignError>)
        ensures
            match campaign_at(input@) {
                Ok((v, name, ms)) => r matches Ok(c) && c@ == (input@, v, name, ms),
                Err(e) => r is Err && r->Err_0 == e,
            },
    {
        let (header, p) = read_campaign_header(input.as_slice())?;
        let ghost d = input@;
        let ghost v = header.version@;
        let mut entries: Vec<ScenarioMeta> = Vec::new();
        let mut p = p;
        let mut i: usize = 0;
        let ghost q0 = p as int;
        assert(metas_view(entries@) =~= Seq::<MetaView>::empty());
        while i < header.num_scenarios
            invariant
                d == input@,
                v == header.version@,
                campaign_header_at(d) == Ok::<(Seq<u8>, Seq<char>, nat, int), ReadCampaignError>(
                    (v, header.name@, header.num_scenarios as nat, q0),
                ),
                i <= header.num_scenarios,
                metas_at(d, q0, v, i as nat) == Ok::<(Seq<MetaView>, int), ReadCampaignError>(
                    (metas_view(entries@), p as int),
                ),
            decreases header.num_scenarios - i,
        {
            let (meta, q) = match read_scenario_meta(input.as_slice(), p, header.version) {
                Ok(x) => x,
                Err(e) => {
                    proof {
                        lemma_metas_at_stuck(d, q0, v, i as nat, header.num_scenarios as nat, e);
                    }
                    return Err(e);
                },
            };
            let ghost before = entries@;
            entries.push(meta);
            proof {
                assert(metas_view(entries@) =~= metas_view(before).push(meta@));
            }
            p = q;
            i = i + 1;
        }
        Ok(Campaign { data: input, header, entries })
    }

    /// Consume this Campaign instance and get the bytes of its file.
    pub fn into_inner(self) -> (d: Vec<u8>)
        ensures
            d@ == self@.0,
    {
        self.data
    }

    /// Get the campaign file version.
    pub fn version(&self) -> (v: [u8; 4])
        ensures
            v@ == self@.1,
    {
        self.header.version
    }

    /// Get the user-facing name of this campaign.
    pub fn name(&self) -> (s: &str)
        ensures
            s@ == self@.2,
    {
        self.header.name.as_str()
    }

    /// The scenario metadata for this campaign.
    pub fn entries(&self) -> (e: &[ScenarioMeta])
        ensures
            metas_view(e@) == self@.3,
    {
        self.entries.as_slice()
    }

    /// Get the number of scenarios in this campaign.
    pub fn len(&self) -> (n: usize)
        ensures
            n == self@.3.len(),
    {
        self.entries.len()
    }

    /// Returns true if this campaign contains no scenario files.
    pub fn is_empty(&self) -> (b: bool)
        ensures
            b == (self@.3.len() == 0),
    {
        self.entries.len() == 0
    }

    /// Get the user-facing name of the scenario at the given index.
    pub fn get_name(&self, id: usize) -> (r: Option<&str>)
        ensures
            match r {
                Some(s) => id < self@.3.len() && s@ == self@.3[id as int].2,
                None => id >= self@.3.len(),
            },
    {
        if id < self.entries.len() {
            let e = &self.entries[id];
            assert(metas_view(self.entries@)[id as int] == e@);
            Some(e.name.as_str())
        } else {
            None
        }
    }

    /// Get the filename of the scenario at the given index.
    pub fn get_filename(&self, id: usize) -> (r: Option<&str>)
        ensures
            match r {
                Some(s) => id < self@.3.len() && s@ == self@.3[id as int].3,
                None => id >= self@.3.len(),
            },
    {
        if id < self.entries.len() {
            let e = &self.entries[id];
            assert(metas_view(self.entries@)[id as int] == e@);
            Some(e.filename.as_str())
        } else {
            None
        }
    }

    /// Return the index of the first scenario with the given filename, if it exists.
    pub fn get_id(&self, filename: &str) -> (r: Option<usize>)
        ensures
            match r {
                Some(i) => first_named(self@.3, filename@, 0) == Some(i as int),
                None => first_named(self@.3, filename@, 0) is None,
            },
    {
        let mut k: usize = 0;
        while k < self.entries.len()
            invariant
                k <= self.entries@.len(),
                self@.3 == metas_view(self.entries@),
                first_named(self@.3, filename@, 0) == first_named(self@.3, filename@, k as int),
            decreases self.entries.len() - k,
        {
            let e = &self.entries[k];
            assert(self@.3[k as int] == e@);
            if crate::text::same_text(e.filename.as_str(), filename) {
                return Some(k);
            }
            k = k + 1;
        }
        None
    }

    /// Get a scenario file buffer by its file name.
    pub fn by_name_raw(&self, filename: &str) -> (r: Result<Vec<u8>, ReadCampaignError>)
        ensures
            match first_named(self@.3, filename@, 0) {
                Some(k) => r matches Ok(v) && v@ == scenario_bytes(self@.0, self@.3[k]),
                None => r == Err::<Vec<u8>, ReadCampaignError>(ReadCampaignError::NotFoundError),
            },
    {
        match self.get_id(filename) {
            Some(index) => {
                proof {
                    lemma_first_named_in(self@.3, filename@, 0);
                    assert(self@.3.len() == self.entries@.len());

                }
                self.by_index_raw(index)
            },
            None => Err(ReadCampaignError::NotFoundError),
        }
    }

    /// Get a scenario file buffer by its campaign index: the bytes that its entry points
    /// at, as far as the file goes.
    pub fn by_index_raw(&self, index: usize) -> (r: Result<Vec<u8>, ReadCampaignError>)
        ensures
            index < self@.3.len() ==> (r matches Ok(v) && v@ == scenario_bytes(self@.0, self@.3[index as int])),
            index >= self@.3.len() ==> r == Err::<Vec<u8>, ReadCampaignError>(ReadCampaignError::NotFoundError),
    {
        if index >= self.entries.len() {
            return Err(ReadCampaignError::NotFoundError);
        }
        let entry = &self.entries[index];
        assert(metas_view(self.entries@)[index as int] == entry@);
        let n = self.data.len();
        let start: usize = if entry.offset < n {
            entry.offset
        } else {
            n
        };
        let end: usize = if entry.size <= n - start {
            start + entry.size
        } else {
            n
        };
        Ok(copy_range(self.data.as_slice(), start, end))
    }
}

proof fn lemma_first_named_in(ms: Seq<MetaView>, filename: Seq<char>, from: int)
    ensures
        first_named(ms, filename, from) matches Some(k) ==> from <= k < ms.len() && ms[k].3 == filename,
    decreases ms.len() - from,
{
    if 0 <= from < ms.len() && ms[from].3 != filename {
        lemma_first_named_in(ms, filename, from + 1);
    }
}

} // verus!
