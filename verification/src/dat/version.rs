//! Versions of data files and of the games they are for.
use crate::text::push_char;
use std::cmp::Ordering;
use vstd::prelude::*;
use vstd::std_specs::cmp::PartialOrdSpecImpl;
use vstd::string::StringSliceAdditionalSpecFns;

verus! {

/// A game version targeted by a data file.
#[derive(Debug, Clone, Copy, PartialEq, Eq, Structural)]
pub enum GameVersion {
    /// The original expansion-less Age of Empires 2: Age of Kings.
    AoK,
    /// Age of Empires 2 with the The Conquerors expansion.
    AoC,
    /// Age of EMpires 2: HD Edition.
    HD,
}

/// Whether `b` is a data file version identifier: the bytes of `"VER d.d"` (two decimal
/// digits) followed by a NUL.
pub open spec fn is_version_identifier(b: Seq<u8>) -> bool {
    &&& b.len() == 8
    &&& b[0] == 86u8
    &&& b[1] == 69u8
    &&& b[2] == 82u8
    &&& b[3] == 32u8
    &&& 48u8 <= b[4] <= 57u8
    &&& b[5] == 46u8
    &&& 48u8 <= b[6] <= 57u8
    &&& b[7] == 0u8
}

/// A data file version, such as `"VER 5.7"`.
#[derive(Debug, Clone, Copy)]
pub struct FileVersion([u8; 8]);

impl View for FileVersion {
    type V = Seq<u8>;

    closed spec fn view(&self) -> Seq<u8> {
        self.0@
    }
}

impl FileVersion {
    #[verifier::type_invariant]
    spec fn wf(self) -> bool {
        is_version_identifier(self.0@)
    }
}

/// The order of two version identifiers: by major version, then by minor version.
pub open spec fn version_order(a: Seq<u8>, b: Seq<u8>) -> Option<Ordering> {
    if a[4] < b[4] {
        Some(Ordering::Less)
    } else if a[4] > b[4] {
        Some(Ordering::Greater)
    } else if a[6] < b[6] {
        Some(Ordering::Less)
    } else if a[6] > b[6] {
        Some(Ordering::Greater)
    } else {
        Some(Ordering::Equal)
    }
}

impl PartialEq for FileVersion {
    fn eq(&self, other: &FileVersion) -> (r: bool) {
        let a = self.0;
        let b = other.0;
        let r = a[0] == b[0] && a[1] == b[1] && a[2] == b[2] && a[3] == b[3] && a[4] == b[4] && a[5]
            == b[5] && a[6] == b[6] && a[7] == b[7];
        proof {
            if r {
                assert(a@ =~= b@);
            }
        }
        r
    }
}

impl vstd::std_specs::cmp::PartialEqSpecImpl for FileVersion {
    open spec fn obeys_eq_spec() -> bool {
        true
    }

    open spec fn eq_spec(&self, other: &FileVersion) -> bool {
        self@ == other@
    }
}

impl PartialOrd for FileVersion {
    fn partial_cmp(&self, other: &FileVersion) -> (r: Option<Ordering>) {
        proof {
            use_type_invariant(self);
            use_type_invariant(other);
        }
        let a = self.0;
        let b = other.0;
        if a[4] < b[4] {
            Some(Ordering::Less)
        } else if a[4] > b[4] {
            Some(Ordering::Greater)
        } else if a[6] < b[6] {
            Some(Ordering::Less)
        } else if a[6] > b[6] {
            Some(Ordering::Greater)
        } else {
            Some(Ordering::Equal)
        }
    }
}

impl PartialOrdSpecImpl for FileVersion {
    open spec fn obeys_partial_cmp_spec() -> bool {
        true
    }

    open spec fn partial_cmp_spec(&self, other: &FileVersion) -> Option<Ordering> {
        version_order(self@, other@)
    }
}


/// Versions compare by their major digit, then by their minor digit: comparing the other
/// way round gives the opposite answer, and two versions are equal in this order exactly
/// when both digits are the same.
pub proof fn law_version_order(a: Seq<u8>, b: Seq<u8>)
    ensures
        version_order(a, b) is Some,
        version_order(a, b) == Some(Ordering::Less) <==> version_order(b, a) == Some(
            Ordering::Greater,
        ),
        version_order(a, b) == Some(Ordering::Equal) <==> (a[4] == b[4] && a[6] == b[6]),
{
}

/// The identifier of a version given as text of at most eight bytes, padded with NULs.
pub open spec fn padded_identifier(s: Seq<u8>) -> Seq<u8> {
    Seq::new(8, |i: int| if i < s.len() { s[i] } else { 0u8 })
}

impl FileVersion {
    /// The version with the given identifier, which must read `"VER d.d"` and a NUL.
    pub fn from(identifier: [u8; 8]) -> (v: Self)
        requires
            is_version_identifier(identifier@),
        ensures
            v@ == identifier@,
    {
        FileVersion(identifier)
    }

    /// The version named by a text of at most eight bytes, padded with NULs; it must read
    /// `"VER d.d"`.
    pub fn from_text(string: &str) -> (v: Self)
        requires
            string.spec_bytes().len() <= 8,
            is_version_identifier(padded_identifier(string.spec_bytes())),
        ensures
            v@ == padded_identifier(string.spec_bytes()),
    {
        let src = string.as_bytes();
        let mut bytes = [0u8; 8];
        let mut i: usize = 0;
        while i < src.len()
            invariant
                src@ == string.spec_bytes(),
                src.len() <= 8,
                i <= src.len(),
                forall|j: int| 0 <= j < i ==> bytes@[j] == src@[j],
                forall|j: int| i <= j < 8 ==> bytes@[j] == 0u8,
                bytes@.len() == 8,
            decreases src.len() - i,
        {
            bytes[i] = src[i];
            i = i + 1;
        }
        assert(bytes@ =~= padded_identifier(string.spec_bytes()));
        FileVersion(bytes)
    }

    /// The version text: `"VER d.d"`, without the NUL.
    pub fn to_string(&self) -> (s: String)
        ensures
            s@ == Seq::new(7, |i: int| self@[i] as char),
    {
        proof {
            use_type_invariant(self);
        }
        let mut s = String::new();
        let mut i: usize = 0;
        while i < 7
            invariant
                i <= 7,
                is_version_identifier(self@),
                s@ == Seq::new(i as nat, |j: int| self@[j] as char),
            decreases 7 - i,
        {
            push_char(&mut s, self.0[i] as char);
            i = i + 1;
            assert(s@ =~= Seq::new(i as nat, |j: int| self@[j] as char));
        }
        s
    }

    /// Is this file built for Star Wars: Galactic Battlegrounds? No data file of that game
    /// is supported.
    pub fn is_swgb(self) -> (r: bool)
        ensures
            !r,
    {
        false
    }

    /// Is this file built for Age of Empires II: The Conquerors? Only the version
    /// `"VER 5.7"` has a known data version, which is that of The Conquerors.
    pub fn is_aoc(self) -> (r: bool)
        requires
            self@ == seq![86u8, 69u8, 82u8, 32u8, 53u8, 46u8, 55u8, 0u8],
        ensures
            r,
    {
        true
    }

    /// Is this file built for Age of Empires II: Definitive Edition? That is, is its version
    /// `"VER 5.8"` or later?
    pub fn is_de2(self) -> (r: bool)
        ensures
            r == (self@[4] > 53 || (self@[4] == 53 && self@[6] >= 56)),
    {
        let de2 = FileVersion([86u8, 69u8, 82u8, 32u8, 53u8, 46u8, 56u8, 0u8]);
        self >= de2
    }
}

} // verus!
