//! Game variants of recorded games and the version strings that identify them.
use std::cmp::Ordering;
use vstd::prelude::*;
use vstd::std_specs::cmp::PartialOrdSpecImpl;

verus! {

/// The variant of AoE2 that wrote a recorded game.
#[derive(Copy, Clone, Debug, PartialEq, Eq, Structural)]
pub enum GameVariant {
    /// A trial version, either AoC or AoE
    Trial,
    /// Age of Kings
    AgeOfKings,
    /// Age of Conquerors
    AgeOfConquerors,
    /// User Patch
    UserPatch,
    /// Forgotten Empires mod
    ForgottenEmpires,
    /// AoE2:HD release
    HighDefinition,
    /// AoE2:DE release
    DefinitiveEdition,
}

/// The game data version string. In practice, this does not really reflect the game version.
#[derive(Clone, Copy, Debug)]
pub struct GameVersion(pub [u8; 8]);

impl View for GameVersion {
    type V = Seq<u8>;

    open spec fn view(&self) -> Seq<u8> {
        self.0@
    }
}

/// Version string of the trial versions.
pub fn trial_version() -> (v: GameVersion)
    ensures
        v@ == seq![84u8, 82u8, 76u8, 32u8, 57u8, 46u8, 51u8, 0u8],
{
    GameVersion([84u8, 82u8, 76u8, 32u8, 57u8, 46u8, 51u8, 0u8])
}

/// Version string of Age of Kings.
pub fn age_of_kings_version() -> (v: GameVersion)
    ensures
        v@ == seq![86u8, 69u8, 82u8, 32u8, 57u8, 46u8, 51u8, 0u8],
{
    GameVersion([86u8, 69u8, 82u8, 32u8, 57u8, 46u8, 51u8, 0u8])
}

/// Version string of Age of Conquerors and its successors.
pub fn age_of_conquerors_version() -> (v: GameVersion)
    ensures
        v@ == seq![86u8, 69u8, 82u8, 32u8, 57u8, 46u8, 52u8, 0u8],
{
    GameVersion([86u8, 69u8, 82u8, 32u8, 57u8, 46u8, 52u8, 0u8])
}

/// Version string of the Forgotten Empires mod.
pub fn forgotten_empires_version() -> (v: GameVersion)
    ensures
        v@ == seq![86u8, 69u8, 82u8, 32u8, 57u8, 46u8, 53u8, 0u8],
{
    GameVersion([86u8, 69u8, 82u8, 32u8, 57u8, 46u8, 53u8, 0u8])
}

/// First save version of HD Edition (11.77), as the bit pattern of an `f32`.
///
/// The last known AoC version is 11.76, and versions have a precision of two digits.
pub const HD_SAVE_VERSION: u32 = 0x413c_51ec;

/// First save version of Definitive Edition (12.97), as the bit pattern of an `f32`.
pub const DE_SAVE_VERSION: u32 = 0x414f_851f;

/// `x` and `c` are bit patterns of `f32` values, `c` that of a positive finite number;
/// holds when the number `x` is greater than or equal to the number `c`.
///
/// Positive numbers and +infinity are ordered like their bit patterns; NaNs (above
/// `0x7f80_0000` without the sign bit) and negative numbers (sign bit set) never are.
pub open spec fn f32_bits_at_least(x: u32, c: u32) -> bool {
    c <= x <= 0x7f80_0000
}

/// The version string `"VER 9.<d>\0"`.
pub open spec fn ver9(d: u8) -> Seq<u8> {
    seq![86u8, 69u8, 82u8, 32u8, 57u8, 46u8, d, 0u8]
}

/// Which variant wrote a game with the given version string and save version.
pub open spec fn variant_of(version: Seq<u8>, sub_version: u32) -> Option<GameVariant> {
    if version == seq![84u8, 82u8, 76u8, 32u8, 57u8, 46u8, 51u8, 0u8] {
        Some(GameVariant::Trial)
    } else if version == ver9(51u8) {
        Some(GameVariant::AgeOfKings)
    } else if version == ver9(52u8) {
        if f32_bits_at_least(sub_version, DE_SAVE_VERSION) {
            Some(GameVariant::DefinitiveEdition)
        } else if f32_bits_at_least(sub_version, HD_SAVE_VERSION) {
            Some(GameVariant::HighDefinition)
        } else {
            Some(GameVariant::AgeOfConquerors)
        }
    } else if version == ver9(53u8) {
        Some(GameVariant::ForgottenEmpires)
    } else if exists|d: u8| 56u8 <= d <= 70u8 && version == ver9(d) {
        // UserPatch uses VER 9.<N>\0 where N is anything between 8 and F
        Some(GameVariant::UserPatch)
    } else {
        None
    }
}

/// The original releases.
pub open spec fn is_original_variant(v: GameVariant) -> bool {
    v == GameVariant::Trial || v == GameVariant::AgeOfKings || v == GameVariant::AgeOfConquerors
}

/// Community mods of the original releases.
pub open spec fn is_mod_variant(v: GameVariant) -> bool {
    v == GameVariant::ForgottenEmpires || v == GameVariant::UserPatch
}

/// Later official releases.
pub open spec fn is_update_variant(v: GameVariant) -> bool {
    v == GameVariant::HighDefinition || v == GameVariant::DefinitiveEdition
}

/// Position of a variant in the line of games that build on each other.
pub open spec fn lineage_rank(v: GameVariant) -> int {
    match v {
        GameVariant::Trial => 0,
        GameVariant::AgeOfKings => 1,
        GameVariant::AgeOfConquerors => 2,
        GameVariant::UserPatch => 3,
        GameVariant::ForgottenEmpires => 3,
        GameVariant::HighDefinition => 3,
        GameVariant::DefinitiveEdition => 4,
    }
}

/// Two distinct variants are comparable unless both are mods, or one is a mod and the
/// other a later official release; comparable variants are ordered by lineage.
pub open spec fn variant_order(a: GameVariant, b: GameVariant) -> Option<Ordering> {
    if a == b {
        Some(Ordering::Equal)
    } else if (is_mod_variant(a) || is_mod_variant(b)) && !is_original_variant(a)
        && !is_original_variant(b) {
        None
    } else if lineage_rank(a) < lineage_rank(b) {
        Some(Ordering::Less)
    } else {
        Some(Ordering::Greater)
    }
}

fn bytes8_equal(a: &[u8; 8], b: &[u8; 8]) -> (r: bool)
    ensures
        r == (a@ == b@),
{
    let mut i: usize = 0;
    while i < 8
        invariant
            i <= 8,
            a@.len() == 8,
            b@.len() == 8,
            forall|j: int| 0 <= j < i ==> a@[j] == b@[j],
        decreases 8 - i,
    {
        if a[i] != b[i] {
            return false;
        }
        i = i + 1;
    }
    assert(a@ =~= b@);
    true
}

impl GameVersion {
    /// Whether two version strings are equal.
    pub fn same_as(&self, other: &GameVersion) -> (r: bool)
        ensures
            r == (self@ == other@),
    {
        bytes8_equal(&self.0, &other.0)
    }

    /// The version string read from the first 8 bytes of `input`.
    pub fn read_from(input: &[u8]) -> (r: Result<GameVersion, crate::codec::ReadError>)
        ensures
            r is Ok <==> input.len() >= 8,
            r matches Ok(v) ==> v@ == input@.subrange(0, 8),
    {
        if input.len() < 8 {
            return Err(crate::codec::ReadError::UnexpectedEof);
        }
        let v = GameVersion(
            [input[0], input[1], input[2], input[3], input[4], input[5], input[6], input[7]],
        );
        assert(v@ =~= input@.subrange(0, 8));
        Ok(v)
    }

    /// A version string from its 7 visible characters, terminated by a zero byte.
    pub fn from_short(val: &[u8; 7]) -> (v: GameVersion)
        ensures
            v@ == val@.push(0u8),
    {
        let v = GameVersion([val[0], val[1], val[2], val[3], val[4], val[5], val[6], 0u8]);
        assert(v@ =~= val@.push(0u8));
        v
    }
}

impl Default for GameVersion {
    fn default() -> (v: Self)
        ensures
            v@ == Seq::new(8, |i: int| 0u8),
    {
        let v = GameVersion([0u8; 8]);
        assert(v@ =~= Seq::new(8, |i: int| 0u8));
        v
    }
}

impl GameVariant {
    /// Determine the variant from the version string and the save version, given as
    /// the bit pattern of an `f32`. Returns `None` for unknown version strings.
    pub fn resolve_variant(version: &GameVersion, sub_version: u32) -> (r: Option<GameVariant>)
        ensures
            r == variant_of(version@, sub_version),
    {
        let v = &version.0;
        if version.same_as(&trial_version()) {
            return Some(GameVariant::Trial);
        }
        if version.same_as(&age_of_kings_version()) {
            return Some(GameVariant::AgeOfKings);
        }
        if version.same_as(&age_of_conquerors_version()) {
            if DE_SAVE_VERSION <= sub_version && sub_version <= 0x7f80_0000 {
                return Some(GameVariant::DefinitiveEdition);
            }
            if HD_SAVE_VERSION <= sub_version && sub_version <= 0x7f80_0000 {
                return Some(GameVariant::HighDefinition);
            }
            return Some(GameVariant::AgeOfConquerors);
        }
        if version.same_as(&forgotten_empires_version()) {
            return Some(GameVariant::ForgottenEmpires);
        }
        if v[0] == 86u8 && v[1] == 69u8 && v[2] == 82u8 && v[3] == 32u8 && v[4] == 57u8 && v[5]
            == 46u8 && 56u8 <= v[6] && v[6] <= 70u8 && v[7] == 0 {
            assert(version@ =~= ver9(v[6]));
            return Some(GameVariant::UserPatch);
        }
        proof {
            assert forall|d: u8| 56u8 <= d <= 70u8 implies version@ != ver9(d) by {
                if version@ == ver9(d) {
                    assert(version@[6] == d);
                }
            }
        }
        None
    }

    pub fn is_original(&self) -> (r: bool)
        ensures
            r == is_original_variant(*self),
    {
        match self {
            GameVariant::Trial | GameVariant::AgeOfKings | GameVariant::AgeOfConquerors => true,
            _ => false,
        }
    }

    pub fn is_mod(&self) -> (r: bool)
        ensures
            r == is_mod_variant(*self),
    {
        match self {
            GameVariant::ForgottenEmpires | GameVariant::UserPatch => true,
            _ => false,
        }
    }

    pub fn is_update(&self) -> (r: bool)
        ensures
            r == is_update_variant(*self),
    {
        match self {
            GameVariant::HighDefinition | GameVariant::DefinitiveEdition => true,
            _ => false,
        }
    }
}

/// A bit of a weird comparing check
/// It follows the hierarchy of what game is based on what
///
/// Thus AgeOfConquerors is bigger than AgeOfKings and HighDefinition is bigger than AgeOfConquers etc.
///
/// The confusing part is around HighDefinition and UserPatch
/// UserPatch is neither bigger, smaller or equal to the -new- editions created by MSFT and vice versa
impl PartialOrd for GameVariant {
    fn partial_cmp(&self, other: &Self) -> (r: Option<Ordering>) {
        if *other == *self {
            return Some(Ordering::Equal);
        }
        let is_mod = self.is_mod() || other.is_mod();
        let update = self.is_update() || other.is_update();
        let original = self.is_original() || other.is_original();

        // Can't compare between user patch and hd and up
        if is_mod && update {
            return None;
        }
        if original && (is_mod || update) {
            return Some(
                if self.is_original() {
                    Ordering::Less
                } else {
                    Ordering::Greater
                },
            );
        }
        // Only comparisons within one class are left.
        match self {
            GameVariant::Trial => Some(Ordering::Less),
            GameVariant::AgeOfKings => {
                if *other == GameVariant::Trial {
                    Some(Ordering::Greater)
                } else {
                    Some(Ordering::Less)
                }
            },
            GameVariant::AgeOfConquerors => Some(Ordering::Greater),
            GameVariant::UserPatch | GameVariant::ForgottenEmpires => None,
            GameVariant::HighDefinition => Some(Ordering::Less),
            GameVariant::DefinitiveEdition => Some(Ordering::Greater),
        }
    }
}

impl PartialOrdSpecImpl for GameVariant {
    open spec fn obeys_partial_cmp_spec() -> bool {
        true
    }

    open spec fn partial_cmp_spec(&self, other: &Self) -> Option<Ordering> {
        variant_order(*self, *other)
    }
}

/// Comparing in the other direction gives the opposite answer.
pub proof fn law_variant_order_antisymmetric(a: GameVariant, b: GameVariant)
    ensures
        variant_order(a, b) == Some(Ordering::Less) <==> variant_order(b, a) == Some(
            Ordering::Greater,
        ),
        variant_order(a, b) == Some(Ordering::Equal) <==> a == b,
        variant_order(a, b) is None <==> variant_order(b, a) is None,
{
}

/// The order of variants is transitive.
pub proof fn law_variant_order_transitive(a: GameVariant, b: GameVariant, c: GameVariant)
    requires
        variant_order(a, b) == Some(Ordering::Less),
        variant_order(b, c) == Some(Ordering::Less),
    ensures
        variant_order(a, c) == Some(Ordering::Less),
{
}

/// Every original release comes before every mod and every later release.
pub proof fn law_originals_come_first(a: GameVariant, b: GameVariant)
    requires
        is_original_variant(a),
        !is_original_variant(b),
    ensures
        variant_order(a, b) == Some(Ordering::Less),
{
}

} // verus!
