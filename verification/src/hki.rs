//! Reader/writer for Age of Empires 2 Hotkey info files.
//!
//! Hotkey files in AoE2 contain groups, each of which contain some number of
//! hotkeys. Hotkeys have a string ID, a keycode, and flags
//! for Ctrl/Alt/Shift modifiers. The index of the hotkey in its
//! group determines the action that will be taken when it is activated.
use crate::codec::{
    law_le_read_of_write, le_at, le_bytes, lemma_le_bytes_len, lemma_pow256_values,
    lemma_signed_roundtrip, pow256, put_i32_le, put_i8, put_u32_le, read_i32_le, read_i8,
    read_u32_le, read_u8, signed_of, unsigned_of, ReadError,
};
use crate::deflate::{deflate, deflated, inflate, inflated};
use crate::lang::lang_file::LangFile;
use crate::lang::string_key::{key_text, KeyView, StringKey};
use crate::text::{chars_of, decimal_digits, i64_decimal, signed_decimal, string_of, u64_decimal};
use std::collections::HashMap;
use vstd::prelude::*;
use vstd::std_specs::convert::FromSpecImpl;

verus! {

/// The string id of the text of a keycode in a language file.
pub open spec fn keycode_string_id(keycode: i32) -> Option<i32> {
    if 112 <= keycode <= 120 {
        // F1 to F9
        Some((19545 + (keycode - 112)) as i32)
    } else if 122 <= keycode <= 135 {
        // F11 to F24; F10 is reserved for opening the menu and cannot be reassigned
        Some((19555 + (keycode - 122)) as i32)
    } else if 253 <= keycode <= 255 {
        Some((19965 - keycode) as i32)
    } else {
        None
    }
}

/// Returns `Some(id)`, where `id` is the id number of the string giving the text
/// representation of `keycode` in a language file.
/// Returns `None` if `keycode` is not represented in a language file.
pub fn keycode_id(keycode: i32) -> (r: Option<i32>)
    ensures
        r == keycode_string_id(keycode),
{
    match keycode {
        112 => Some(19545),
        113 => Some(19546),
        114 => Some(19547),
        115 => Some(19548),
        116 => Some(19549),
        117 => Some(19550),
        118 => Some(19551),
        119 => Some(19552),
        120 => Some(19553),
        122 => Some(19555),
        123 => Some(19556),
        124 => Some(19557),
        125 => Some(19558),
        126 => Some(19559),
        127 => Some(19560),
        128 => Some(19561),
        129 => Some(19562),
        130 => Some(19563),
        131 => Some(19564),
        132 => Some(19565),
        133 => Some(19566),
        134 => Some(19567),
        135 => Some(19568),
        253 => Some(19712),
        254 => Some(19711),
        255 => Some(19710),
        _ => None,
    }
}

/// A list of information about hotkey groups in a hotkey file.
/// The length is the number of groups in the file.
/// Each `StringKey` in the list is the key of the string that names the group.
/// The key is stored at the group's offset index in the hotkey file.
#[derive(Debug)]
pub struct HotkeyInfoMetadata(Vec<StringKey>);

impl View for HotkeyInfoMetadata {
    type V = Seq<KeyView>;

    closed spec fn view(&self) -> Seq<KeyView> {
        self.0@.map_values(|k: StringKey| k@)
    }
}

impl HotkeyInfoMetadata {
    /// Returns an empty `HotkeyInfoMetadata` struct.
    pub fn new() -> (r: Self)
        ensures
            r@ == Seq::<KeyView>::empty(),
    {
        let r = Self(Vec::new());
        assert(r@ =~= Seq::<KeyView>::empty());
        r
    }

    /// Adds a group to the metadata.
    pub fn add(&mut self, sk: StringKey)
        ensures
            final(self)@ == old(self)@.push(sk@),
    {
        self.0.push(sk);
        assert(self@ =~= old(self)@.push(sk@));
    }

    /// Returns the number of groups described by this metadata.
    pub fn len(&self) -> (r: usize)
        ensures
            r == self@.len(),
    {
        self.0.len()
    }

    /// Returns the string key of the group at the given `index`, or `None` if
    /// `index >= self.len()`.
    pub fn get(&self, index: usize) -> (r: Option<&StringKey>)
        ensures
            r is Some <==> index < self@.len(),
            r matches Some(k) ==> k@ == self@[index as int],
    {
        if index < self.0.len() {
            Some(&self.0[index])
        } else {
            None
        }
    }

    /// The group name keys in order.
    pub fn iter(&self) -> (r: &[StringKey])
        ensures
            r@.map_values(|k: StringKey| k@) == self@,
    {
        self.0.as_slice()
    }
}

impl From<Vec<StringKey>> for HotkeyInfoMetadata {
    fn from(sks: Vec<StringKey>) -> (r: Self)
        ensures
            r@ == sks@.map_values(|k: StringKey| k@),
    {
        Self(sks)
    }
}

impl FromSpecImpl<Vec<StringKey>> for HotkeyInfoMetadata {
    /// The result is given by the `ensures` of `from` alone.
    open spec fn obeys_from_spec() -> bool {
        false
    }

    open spec fn from_spec(sks: Vec<StringKey>) -> Self {
        choose|m: HotkeyInfoMetadata| m@ == sks@.map_values(|k: StringKey| k@)
    }
}

/// The group name keys of the default Aoe2 hotkeys (both UserPatch and HD).
pub open spec fn default_group_names() -> Seq<KeyView> {
    seq![
        KeyView::Num(20000), // UnitCommands
        KeyView::Num(20001), // GameCommands
        KeyView::Num(20002), // Scroll
        KeyView::Num(20003), // Villager
        KeyView::Num(20004), // TownCenter
        KeyView::Num(20007), // Dock
        KeyView::Num(20008), // Barracks
        KeyView::Num(20009), // ArcheryRange
        KeyView::Num(20010), // Stable
        KeyView::Num(20011), // SiegeWorkshop
        KeyView::Num(20012), // Monastery
        KeyView::Num(20013), // Market
        KeyView::Num(20014), // MilitaryUnits
        KeyView::Num(20015), // Castle
        KeyView::Num(20017), // Mill
    ]
}

/// Returns a `HotkeyInfoMetadata` struct that represents the info metadata for
/// the default Aoe2 hotkeys (both UserPatch and HD).
pub fn default_him() -> (r: HotkeyInfoMetadata)
    ensures
        r@ == default_group_names(),
{
    let mut hgm = HotkeyInfoMetadata::new();
    hgm.add(StringKey::Num(20000));
    hgm.add(StringKey::Num(20001));
    hgm.add(StringKey::Num(20002));
    hgm.add(StringKey::Num(20003));
    hgm.add(StringKey::Num(20004));
    hgm.add(StringKey::Num(20007));
    hgm.add(StringKey::Num(20008));
    hgm.add(StringKey::Num(20009));
    hgm.add(StringKey::Num(20010));
    hgm.add(StringKey::Num(20011));
    hgm.add(StringKey::Num(20012));
    hgm.add(StringKey::Num(20013));
    hgm.add(StringKey::Num(20014));
    hgm.add(StringKey::Num(20015));
    hgm.add(StringKey::Num(20017));
    assert(hgm@ =~= default_group_names());
    hgm
}

/// Available hotkey groups, numbered from 0 in this order.
pub enum HotkeyGroupId {
    UnitCommands,
    GameCommands,
    Scroll,
    Villager,
    TownCenter,
    Dock,
    Barracks,
    ArcheryRange,
    Stable,
    SiegeWorkshop,
    Monastery,
    Market,
    MilitaryUnits,
    Castle,
    Mill,
}

/// Hotkeys for castles.
pub enum CastleHotkeys {
    Trebuchet,
    UniqueUnit,
    Petard,
}

/// Hotkeys for military units.
pub enum MilitaryUnitHotkeys {
    Formation,
    WheelLeft,
    WheelRight,
    AboutFace,
    DisbandFormation,
    Patrol,
    Guard,
    Follow,
    Aggressive,
    Defensive,
    StandGround,
    NoAttack,
    /// HD Edition only.
    AttackMove,
}

/// Hotkeys to change formations.
pub enum FormationHotkeys {
    Horde,
    Box,
    Line,
    Staggered,
    Flank,
}

/// Hotkeys to control units.
pub enum UnitCommandHotkeys {
    BuildEconomic,
    BuildMilitary,
    Repair,
    Group,
    Ungroup,
    Stop,
    Unload,
    Pack,
    Unpack,
    Heal,
    Convert,
    Garrison,
    Delete,
    SetGatherPoint,
    AttackGround,
}

/// Hotkeys for the game UI.
pub enum GameCommandHotkeys {
    CreateGroup0,
    CreateGroup1,
    CreateGroup2,
    CreateGroup3,
    CreateGroup4,
    CreateGroup5,
    CreateGroup6,
    CreateGroup7,
    CreateGroup8,
    CreateGroup9,
    SelectGroup0,
    SelectGroup1,
    SelectGroup2,
    SelectGroup3,
    SelectGroup4,
    SelectGroup5,
    SelectGroup6,
    SelectGroup7,
    SelectGroup8,
    SelectGroup9,
    Chat,
    SpeedUp,
    SpeedDown,
    NextIdleVillager,
    NextIdleVillager2,
    CycleFocusArea,
    CycleFocusArea2,
    GoToSelected,
    GoToTownCenter,
    GoToTownCenter2,
    GoToMarket,
    ScrollChatDown,
    ScrollChatUp,
    Score,
    GoToBarracks,
    GoToArcheryRange,
    GoToStable,
    GoToSiegeWorkshop,
    GoToDock,
    GoToMonastery,
    GoToBlacksmith,
    GoToMill,
    GoToUniversity,
    TechTree,
    Achievements,
    DisplayGameTime,
    NextIdleMilitary,
    NextIdleMilitary2,
    Flare,
    GoToCastle,
    GoToMiningCamp,
    GoToSawMill,
    MinimapCombat,
    MinimapResource,
    MinimapNormal,
    ExtendedHelp,
    AdvancedModes,
    Diplomacy,
    Menu,
    Objectives,
    ChatDialog,
    PauseGame,
    SaveGame,
    FriendFoeColors,
    PreviousView,
    SaveChapter,
}

/// Hotkeys for scrolling.
pub enum ScrollHotkeys {
    ScrollLeft,
    ScrollRight,
    ScrollUp,
    ScrollDown,
    FastScrollLeft,
    FastScrollRight,
    FastScrollUp,
    FastScrollDown,
    ScrollLeftUp,
    ScrollLeftDown,
    ScrollRightDown,
    ScrollRightUp,
    FastScrollLeftUp,
    FastScrollLeftDown,
    FastScrollRightDown,
    FastScrollRightUp,
}

/// Hotkeys for villagers.
pub enum VillagerHotkeys {
    BuildHouse,
    BuildMill,
    BuildBlacksmith,
    BuildDock,
    BuildBarracks,
    BuildPalisadeWall,
    BuildMarket,
    BuildStoneWall,
    BuildTower,
    BuildBombardTower,
    BuildGate1,
    BuildGate2,
    BuildFarm,
    BuildArcheryRange,
    BuildStable,
    BuildMonastery,
    BuildTownCenter,
    BuildSiegeWorkshop,
    BuildUniversity,
    BuildWonder,
    BuildCastle,
    BuildTradeWorkshop,
    BuildPackedTownCenter,
    BuildSawMill,
    BuildMiningCamp,
    BuildFishTrap,
    BuildOutpost,
    BuildNext,
    BuildPalisadeGate,
    BuildFeitoria,
}

/// Hotkeys for the town center.
pub enum TownCenterHotkeys {
    CreateVillager,
    AgeAdvance,
    CreateRaiderArcher,
    CreateRaiderSwordsman,
    CreateRaiderCavalry,
    CreateRaiderCavArcher,
    RingTownBell,
    BackToWork,
}

/// Hotkeys for mills.
pub enum MillHotkeys {
    AddFarm,
}

/// Hotkeys for docks.
pub enum DockHotkeys {
    CreateFishingShip,
    CreateTradeCog,
    CreateGalley,
    CreateCannonGalleon,
    CreateFireGalley,
    CreateDemolitionShip,
    CreateBoardingGalley,
    CreateTransport,
    CreateLongboat,
    CreateTurtleShip,
}

/// Hotkeys for the barracks.
pub enum BarracksHotkeys {
    CreateMilitia,
    CreatePikeman,
    CreateEagleWarrior,
    CreateHuskarl,
}

/// Hotkeys for archery ranges.
pub enum ArcheryRangeHotkeys {
    CreateArcher,
    CreateSkirmisher,
    CreateCavArcher,
    CreateHandCannoneer,
    CreateGenitour,
}

/// Hotkeys for stables.
pub enum StableHotkeys {
    CreateScout,
    CreateCamel,
    CreateKnight,
    CreateBattleElephant,
}

/// Hotkeys for siege workshops.
pub enum SiegeWorkshopHotkeys {
    CreateRam,
    CreateScorpion,
    CreateMangonel,
    CreateBombardCannon,
    CreateSiegeTower,
}

/// Hotkeys for the monastery.
pub enum MonasteryHotkeys {
    CreateMonk,
    CreateMissionary,
}

/// Hotkeys for the market.
pub enum MarketHotkeys {
    CreateTradeCart,
}

/// Represents an error when accessing a hotkey group that does not exist.
///
/// The index of the group is greater than or equal to the number of groups.
#[derive(Debug)]
pub struct GroupIndexError {
    index: usize,
    num_groups: usize,
}

impl GroupIndexError {
    /// Returns a `GroupIndexError` with group index `index` and a number of
    /// groups equal to `num_groups`.
    pub fn new(index: usize, num_groups: usize) -> (r: Self)
        requires
            num_groups <= index,
        ensures
            r.index_spec() == index,
            r.num_groups_spec() == num_groups,
    {
        Self { index, num_groups }
    }

    pub closed spec fn index_spec(&self) -> usize {
        self.index
    }

    pub closed spec fn num_groups_spec(&self) -> usize {
        self.num_groups
    }

    /// Returns the index of the group that was accessed.
    pub fn index(&self) -> (r: usize)
        ensures
            r == self.index_spec(),
    {
        self.index
    }

    /// Returns the number of valid groups.
    pub fn num_groups(&self) -> (r: usize)
        ensures
            r == self.num_groups_spec(),
    {
        self.num_groups
    }
}

/// Represents an error when accessing a hotkey that does not exist.
#[derive(Debug)]
pub struct HotkeyIndexError {
    index: usize,
    num_hotkeys: usize,
}

impl HotkeyIndexError {
    /// Returns a `HotkeyIndexError` with hotkey index `index` and a number of
    /// hotkeys equal to `num_hotkeys`.
    pub fn new(index: usize, num_hotkeys: usize) -> (r: Self)
        requires
            num_hotkeys <= index,
        ensures
            r.index_spec() == index,
            r.num_hotkeys_spec() == num_hotkeys,
    {
        Self { index, num_hotkeys }
    }

    pub closed spec fn index_spec(&self) -> usize {
        self.index
    }

    pub closed spec fn num_hotkeys_spec(&self) -> usize {
        self.num_hotkeys
    }

    /// Returns the index of the hotkey that was accessed.
    pub fn index(&self) -> (r: usize)
        ensures
            r == self.index_spec(),
    {
        self.index
    }

    /// Returns the number of valid hotkeys.
    pub fn num_hotkeys(&self) -> (r: usize)
        ensures
            r == self.num_hotkeys_spec(),
    {
        self.num_hotkeys
    }
}

/// Represents an error when binding or unbinding a hotkey that doesn't exist.
#[derive(Debug)]
pub enum IndexError {
    /// Accessing a nonexistent group.
    GroupIndex(GroupIndexError),
    /// Accessing a nonexistent hotkey within a group.
    HotkeyIndex(HotkeyIndexError),
}

impl From<GroupIndexError> for IndexError {
    fn from(err: GroupIndexError) -> (r: Self) {
        IndexError::GroupIndex(err)
    }
}

impl FromSpecImpl<GroupIndexError> for IndexError {
    open spec fn obeys_from_spec() -> bool {
        true
    }

    open spec fn from_spec(err: GroupIndexError) -> Self {
        IndexError::GroupIndex(err)
    }
}

impl From<HotkeyIndexError> for IndexError {
    fn from(err: HotkeyIndexError) -> (r: Self) {
        IndexError::HotkeyIndex(err)
    }
}

impl FromSpecImpl<HotkeyIndexError> for IndexError {
    open spec fn obeys_from_spec() -> bool {
        true
    }

    open spec fn from_spec(err: HotkeyIndexError) -> Self {
        IndexError::HotkeyIndex(err)
    }
}

/// The information about a single hotkey.
#[derive(Debug, Clone, Copy, PartialEq, Eq, Hash, Structural)]
pub struct Hotkey {
    /// Keycode that activates this hotkey.
    ///
    /// If `string_id` is `-1`, this `key` must be `0`.
    pub key: i32,
    /// The string ID for this hotkey's label. -1 if this hotkey is unused.
    pub string_id: i32,
    /// Whether the Ctrl key needs to be held to activate this hotkey.
    pub ctrl: bool,
    /// Whether the Alt key needs to be held to activate this hotkey.
    pub alt: bool,
    /// Whether the Shift key needs to be held to activate this hotkey.
    pub shift: bool,
    /// Not sure what this does yet? Actually may be unused…
    pub mouse: i8,
}

/// The byte that stores a flag.
pub open spec fn flag_byte(b: bool) -> u8 {
    if b {
        1
    } else {
        0
    }
}

/// The 12 bytes that store a hotkey: key and string id (little-endian), the three
/// modifier flags, and the mouse byte.
pub open spec fn hotkey_bytes(h: Hotkey) -> Seq<u8> {
    le_bytes(unsigned_of(h.key as int, 4), 4) + le_bytes(unsigned_of(h.string_id as int, 4), 4)
        + seq![flag_byte(h.ctrl), flag_byte(h.alt), flag_byte(h.shift), unsigned_of(
        h.mouse as int,
        1,
    ) as u8]
}

/// The hotkey stored at `p`; any nonzero flag byte means the modifier is held.
pub open spec fn hotkey_at(d: Seq<u8>, p: int) -> Hotkey {
    Hotkey {
        key: signed_of(le_at(d, p, 4), 4) as i32,
        string_id: signed_of(le_at(d, p + 4, 4), 4) as i32,
        ctrl: d[p + 8] != 0,
        alt: d[p + 9] != 0,
        shift: d[p + 10] != 0,
        mouse: signed_of(d[p + 11] as nat, 1) as i8,
    }
}

/// The text of a hotkey with its label from a language file, as `to_string_lang` writes it.
pub open spec fn hotkey_text(h: Hotkey, label: Option<Seq<char>>) -> Seq<char> {
    let mods = (if h.ctrl {
        seq!['c', 't', 'r', 'l', '-']
    } else {
        Seq::empty()
    }) + (if h.alt {
        seq!['c', 't', 'r', 'l', '-']
    } else {
        Seq::empty()
    }) + (if h.shift {
        seq!['c', 't', 'r', 'l', '-']
    } else {
        Seq::empty()
    });
    let id = signed_decimal(h.string_id as int);
    let tail = seq![':', ' '] + mods + signed_decimal(h.key as int);
    match label {
        Some(s) => s + seq![' ', '('] + id + seq![')'] + tail,
        None => id + tail,
    }
}

/// The label of a hotkey in a language file: the string under its string id.
pub open spec fn hotkey_label(h: Hotkey, m: Map<KeyView, Seq<char>>) -> Option<Seq<char>> {
    let k = KeyView::Num(h.string_id as u32);
    if m.contains_key(k) {
        Some(m[k])
    } else {
        None
    }
}

impl Default for Hotkey {
    fn default() -> (r: Self)
        ensures
            r.key == 0 && r.string_id == -1 && !r.ctrl && !r.alt && !r.shift,
            r.mouse_spec() == 0,
    {
        Self { key: 0, string_id: -1, ctrl: false, alt: false, shift: false, mouse: 0 }
    }
}

impl Hotkey {
    pub closed spec fn mouse_spec(&self) -> i8 {
        self.mouse
    }

    /// Returns a hotkey equivalent to this one but with the key set to `key`.
    pub fn key(self, key: i32) -> (r: Self)
        ensures
            r == (Hotkey { key, ..self }),
    {
        Self { key, ..self }
    }

    /// Returns a hotkey equivalent to this one but with the string key set
    /// to `string_id`. If the id is `-1`, the returned key also has a `key` field set to `0`.
    pub fn string_id(self, string_id: i32) -> (r: Self)
        ensures
            r == (if string_id == -1 {
                Hotkey { string_id, key: 0, ..self }
            } else {
                Hotkey { string_id, ..self }
            }),
    {
        if string_id == -1 {
            Self { string_id, key: 0, ..self }
        } else {
            Self { string_id, ..self }
        }
    }

    /// Returns a hotkey equivalent to this one but with `ctrl` determining
    /// whether control must be held when pressing the key.
    pub fn ctrl(self, ctrl: bool) -> (r: Self)
        ensures
            r == (Hotkey { ctrl, ..self }),
    {
        Self { ctrl, ..self }
    }

    /// Returns a hotkey equivalent to this one but with `alt` determining
    /// whether alt must be held when pressing the key.
    pub fn alt(self, alt: bool) -> (r: Self)
        ensures
            r == (Hotkey { alt, ..self }),
    {
        Self { alt, ..self }
    }

    /// Returns a hotkey equivalent to this one but with `shift` determining
    /// whether shift must be held when pressing the key.
    pub fn shift(self, shift: bool) -> (r: Self)
        ensures
            r == (Hotkey { shift, ..self }),
    {
        Self { shift, ..self }
    }

    /// Reads a hotkey at position `pos`, returning it and the position after it.
    pub fn from(input: &[u8], pos: usize) -> (r: Result<(Self, usize), ReadError>)
        ensures
            r is Ok <==> pos + 12 <= input.len(),
            r matches Ok((h, p)) ==> h == hotkey_at(input@, pos as int) && p == pos + 12,
            r matches Err(e) ==> e == ReadError::UnexpectedEof,
    {
        if pos > input.len() || input.len() - pos < 12 {
            return Err(ReadError::UnexpectedEof);
        }
        let (key, p) = read_i32_le(input, pos)?;
        let (string_id, p) = read_i32_le(input, p)?;
        let (ctrl, p) = read_u8(input, p)?;
        let (alt, p) = read_u8(input, p)?;
        let (shift, p) = read_u8(input, p)?;
        let (mouse, p) = read_i8(input, p)?;
        Ok((Self { key, string_id, ctrl: ctrl != 0, alt: alt != 0, shift: shift != 0, mouse }, p))
    }

    /// Appends this hotkey's 12 bytes.
    pub fn write_to(&self, output: &mut Vec<u8>)
        ensures
            final(output)@ == old(output)@ + hotkey_bytes(*self),
    {
        put_i32_le(output, self.key);
        put_i32_le(output, self.string_id);
        output.push(if self.ctrl { 1u8 } else { 0u8 });
        output.push(if self.alt { 1u8 } else { 0u8 });
        output.push(if self.shift { 1u8 } else { 0u8 });
        put_i8(output, self.mouse);
        assert(output@ =~= old(output)@ + hotkey_bytes(*self));
    }

    /// Returns a string representation of this hotkey, using the strings from `lang_file`.
    pub fn to_string_lang(&self, lang_file: &LangFile) -> (r: String)
        ensures
            r@ == hotkey_text(*self, hotkey_label(*self, lang_file@)),
    {
        let mut out: Vec<char> = Vec::new();
        let id = i64_decimal(self.string_id as i64);
        match lang_file.get(&StringKey::from(self.string_id)) {
            Some(s) => {
                append(&mut out, chars_of(s.as_str()).as_slice());
                out.push(' ');
                out.push('(');
                append(&mut out, id.as_slice());
                out.push(')');
            },
            None => {
                append(&mut out, id.as_slice());
            },
        }
        out.push(':');
        out.push(' ');
        let modifier = ['c', 't', 'r', 'l', '-'];
        if self.ctrl {
            append(&mut out, &modifier);
        }
        if self.alt {
            append(&mut out, &modifier);
        }
        if self.shift {
            append(&mut out, &modifier);
        }
        append(&mut out, i64_decimal(self.key as i64).as_slice());
        let r = string_of(out.as_slice());
        assert(r@ =~= hotkey_text(*self, hotkey_label(*self, lang_file@)));
        r
    }
}


/// The bytes of a list of hotkeys, each in its 12 bytes, in order.
pub open spec fn hotkeys_bytes(g: Seq<Hotkey>) -> Seq<u8>
    decreases g.len(),
{
    if g.len() == 0 {
        Seq::empty()
    } else {
        hotkeys_bytes(g.drop_last()) + hotkey_bytes(g.last())
    }
}

/// The bytes of a group: the number of hotkeys (`u32`, little-endian), then the hotkeys.
pub open spec fn group_bytes(g: Seq<Hotkey>) -> Seq<u8> {
    le_bytes(g.len(), 4) + hotkeys_bytes(g)
}

/// The bytes of a list of groups, in order.
pub open spec fn groups_bytes(gs: Seq<Seq<Hotkey>>) -> Seq<u8>
    decreases gs.len(),
{
    if gs.len() == 0 {
        Seq::empty()
    } else {
        groups_bytes(gs.drop_last()) + group_bytes(gs.last())
    }
}

/// The uncompressed bytes of a hotkey file: the version (`f32` bits), the number of
/// groups, then the groups.
pub open spec fn info_bytes(version: u32, gs: Seq<Seq<Hotkey>>) -> Seq<u8> {
    le_bytes(version as nat, 4) + le_bytes(gs.len(), 4) + groups_bytes(gs)
}

/// The group stored at `p` and the position after it, if the input holds all of it.
pub open spec fn group_at(d: Seq<u8>, p: int) -> Option<(Seq<Hotkey>, int)> {
    if 0 <= p && p + 4 <= d.len() && p + 4 + 12 * le_at(d, p, 4) <= d.len() {
        Some(
            (
                Seq::new(le_at(d, p, 4), |i: int| hotkey_at(d, p + 4 + 12 * i)),
                p + 4 + 12 * le_at(d, p, 4),
            ),
        )
    } else {
        None
    }
}

/// The `n` groups stored from `p` on and the position after them, if the input holds them.
pub open spec fn groups_at(d: Seq<u8>, p: int, n: nat) -> Option<(Seq<Seq<Hotkey>>, int)>
    decreases n,
{
    if n == 0 {
        Some((Seq::empty(), p))
    } else {
        match groups_at(d, p, (n - 1) as nat) {
            None => None,
            Some((gs, q)) => match group_at(d, q) {
                None => None,
                Some((g, r)) => Some((gs.push(g), r)),
            },
        }
    }
}

/// The version and groups of an uncompressed hotkey file, if the input holds all of it.
pub open spec fn info_at(d: Seq<u8>) -> Option<(u32, Seq<Seq<Hotkey>>)> {
    if d.len() < 8 {
        None
    } else {
        match groups_at(d, 8, le_at(d, 4, 4)) {
            None => None,
            Some((gs, _)) => Some((le_at(d, 0, 4) as u32, gs)),
        }
    }
}

/// Represents a group of `Hotkey`s.
///
/// Different groups may have different numbers of hotkeys.
#[derive(Debug, Clone, PartialEq, Eq)]
pub struct HotkeyGroup {
    /// The hotkeys in this group, ordered by the order they appear in a hotkey file.
    hotkeys: Vec<Hotkey>,
}

impl View for HotkeyGroup {
    type V = Seq<Hotkey>;

    closed spec fn view(&self) -> Seq<Hotkey> {
        self.hotkeys@
    }
}

impl HotkeyGroup {
    /// A group with the given hotkeys.
    pub fn from_hotkeys(hotkeys: Vec<Hotkey>) -> (r: Self)
        ensures
            r@ == hotkeys@,
    {
        Self { hotkeys }
    }

    /// Reads a hotkey group at position `pos`, returning it and the position after it.
    pub fn from(input: &[u8], pos: usize) -> (r: Result<(Self, usize), ReadError>)
        ensures
            r is Ok <==> group_at(input@, pos as int) is Some,
            r matches Ok((g, p)) ==> group_at(input@, pos as int) == Some((g@, p as int)),
            r matches Err(e) ==> e == ReadError::UnexpectedEof,
    {
        let (num_hotkeys, p0) = read_u32_le(input, pos)?;
        if p0 > input.len() || (input.len() - p0) / 12 < num_hotkeys as usize {
            return Err(ReadError::UnexpectedEof);
        }
        let mut hotkeys: Vec<Hotkey> = Vec::new();
        let mut p = p0;
        let mut i: u32 = 0;
        while i < num_hotkeys
            invariant
                p0 == pos + 4,
                num_hotkeys == le_at(input@, pos as int, 4),
                p0 + 12 * num_hotkeys <= input.len(),
                i <= num_hotkeys,
                p == p0 + 12 * i,
                hotkeys@.len() == i,
                forall|j: int| 0 <= j < i ==> #[trigger] hotkeys@[j] == hotkey_at(input@, p0 + 12 * j),
            decreases num_hotkeys - i,
        {
            let (h, q) = Hotkey::from(input, p)?;
            hotkeys.push(h);
            p = q;
            i = i + 1;
        }
        let g = Self { hotkeys };
        assert(g@ =~= Seq::new(
            le_at(input@, pos as int, 4),
            |j: int| hotkey_at(input@, pos + 4 + 12 * j),
        ));
        Ok((g, p))
    }

    /// Appends this group's bytes.
    pub fn write_to(&self, output: &mut Vec<u8>)
        requires
            self@.len() <= u32::MAX,
        ensures
            final(output)@ == old(output)@ + group_bytes(self@),
    {
        put_u32_le(output, self.hotkeys.len() as u32);
        let ghost start = output@;
        let mut i: usize = 0;
        while i < self.hotkeys.len()
            invariant
                i <= self.hotkeys@.len(),
                output@ == start + hotkeys_bytes(self.hotkeys@.take(i as int)),
            decreases self.hotkeys@.len() - i,
        {
            self.hotkeys[i].write_to(output);
            proof {
                assert(self.hotkeys@.take(i + 1).drop_last() =~= self.hotkeys@.take(i as int));
            }
            i = i + 1;
            assert(output@ =~= start + hotkeys_bytes(self.hotkeys@.take(i as int)));
        }
        assert(self.hotkeys@.take(self.hotkeys@.len() as int) =~= self.hotkeys@);
        assert(output@ =~= old(output)@ + group_bytes(self@));
    }

    /// A copy of this group.
    pub fn copy(&self) -> (r: Self)
        ensures
            r@ == self@,
    {
        Self { hotkeys: copy_hotkeys(&self.hotkeys) }
    }

    /// Returns the hotkey at `index`, if that hotkey is present in this `HotkeyGroup`.
    pub fn hotkey(&self, index: usize) -> (r: Option<&Hotkey>)
        ensures
            r is Some <==> index < self@.len(),
            r matches Some(h) ==> *h == self@[index as int],
    {
        if index < self.hotkeys.len() {
            Some(&self.hotkeys[index])
        } else {
            None
        }
    }

    /// Returns a hotkey group equivalent to this group but with the hotkey at `index`
    /// unbound so that the key is `0` and all modifier keys are `false`.
    /// Returns an error if the index does not exist.
    pub fn unbind(&self, index: usize) -> (r: Result<Self, HotkeyIndexError>)
        ensures
            r is Ok <==> index < self@.len(),
            r matches Ok(g) ==> g@ == self@.update(
                index as int,
                Hotkey { key: 0, ctrl: false, alt: false, shift: false, ..self@[index as int] },
            ),
            r matches Err(e) ==> e.index_spec() == index && e.num_hotkeys_spec() == self@.len(),
    {
        self.bind(index, 0, false, false, false)
    }

    /// Returns a hotkey group equivalent to this group but with the hotkey at `index`
    /// bound with the given key and modifier keys.
    /// Returns an error if the index does not exist.
    pub fn bind(&self, index: usize, key: i32, ctrl: bool, alt: bool, shift: bool) -> (r: Result<
        Self,
        HotkeyIndexError,
    >)
        ensures
            r is Ok <==> index < self@.len(),
            r matches Ok(g) ==> g@ == self@.update(
                index as int,
                Hotkey { key, ctrl, alt, shift, ..self@[index as int] },
            ),
            r matches Err(e) ==> e.index_spec() == index && e.num_hotkeys_spec() == self@.len(),
    {
        if index >= self.num_hotkeys() {
            return Err(HotkeyIndexError::new(index, self.num_hotkeys()));
        }
        let mut hotkeys: Vec<Hotkey> = Vec::new();
        let mut i: usize = 0;
        while i < self.hotkeys.len()
            invariant
                i <= self.hotkeys@.len(),
                index < self.hotkeys@.len(),
                hotkeys@ == self.hotkeys@.update(
                    index as int,
                    Hotkey { key, ctrl, alt, shift, ..self.hotkeys@[index as int] },
                ).take(i as int),
            decreases self.hotkeys@.len() - i,
        {
            let hk = self.hotkeys[i];
            if i == index {
                hotkeys.push(hk.key(key).ctrl(ctrl).alt(alt).shift(shift));
            } else {
                hotkeys.push(hk);
            }
            i = i + 1;
            assert(hotkeys@ =~= self.hotkeys@.update(
                index as int,
                Hotkey { key, ctrl, alt, shift, ..self.hotkeys@[index as int] },
            ).take(i as int));
        }
        let g = Self { hotkeys };
        assert(g@ =~= self@.update(
            index as int,
            Hotkey { key, ctrl, alt, shift, ..self@[index as int] },
        ));
        Ok(g)
    }

    /// Returns the number of hotkeys in this `HotkeyGroup`.
    pub fn num_hotkeys(&self) -> (r: usize)
        ensures
            r == self@.len(),
    {
        self.hotkeys.len()
    }

    /// The hotkeys of this group in order.
    pub fn iter(&self) -> (r: &[Hotkey])
        ensures
            r@ == self@,
    {
        self.hotkeys.as_slice()
    }

    /// Returns a string representation of this hotkey group, using the strings
    /// from `lang_file` and the group name string key `sk`.
    pub fn to_string_lang(&self, lang_file: &LangFile, sk: &StringKey) -> (r: String)
        ensures
            r@ == group_text(self@, lang_file@, sk@),
    {
        let mut out: Vec<char> = Vec::new();
        match lang_file.get(sk) {
            Some(name) => {
                append(&mut out, chars_of(name.as_str()).as_slice());
                out.push(' ');
                out.push('(');
                append(&mut out, sk.to_chars().as_slice());
                out.push(')');
                out.push(':');
                out.push('\n');
                out.push(' ');
                out.push(' ');
            },
            None => {},
        }
        let ghost head = out@;
        let mut i: usize = 0;
        while i < self.hotkeys.len()
            invariant
                i <= self.hotkeys@.len(),
                out@ == head + joined_hotkeys(self.hotkeys@.take(i as int), lang_file@),
            decreases self.hotkeys@.len() - i,
        {
            if i > 0 {
                out.push('\n');
                out.push(' ');
                out.push(' ');
            }
            let line = self.hotkeys[i].to_string_lang(lang_file);
            append(&mut out, chars_of(line.as_str()).as_slice());
            proof {
                assert(self.hotkeys@.take(i + 1).drop_last() =~= self.hotkeys@.take(i as int));
            }
            i = i + 1;
            assert(out@ =~= head + joined_hotkeys(self.hotkeys@.take(i as int), lang_file@));
        }
        assert(self.hotkeys@.take(self.hotkeys@.len() as int) =~= self.hotkeys@);
        string_of(out.as_slice())
    }
}

/// The texts of hotkeys, separated by a line break and two spaces.
pub open spec fn joined_hotkeys(g: Seq<Hotkey>, m: Map<KeyView, Seq<char>>) -> Seq<char>
    decreases g.len(),
{
    if g.len() == 0 {
        Seq::empty()
    } else if g.len() == 1 {
        hotkey_text(g[0], hotkey_label(g[0], m))
    } else {
        joined_hotkeys(g.drop_last(), m) + seq!['\n', ' ', ' '] + hotkey_text(
            g.last(),
            hotkey_label(g.last(), m),
        )
    }
}

/// The text of a group: its name line (when the language file has the name), then its
/// hotkeys.
pub open spec fn group_text(g: Seq<Hotkey>, m: Map<KeyView, Seq<char>>, sk: KeyView) -> Seq<char> {
    let head = if m.contains_key(sk) {
        m[sk] + seq![' ', '('] + key_text(sk) + seq![')', ':', '\n', ' ', ' ']
    } else {
        Seq::empty()
    };
    head + joined_hotkeys(g, m)
}


/// Represents a HKI file containing hotkey settings.
#[derive(Debug, Clone, PartialEq)]
pub struct HotkeyInfo {
    /// The file version, as the bit pattern of an `f32`.
    version: u32,
    /// The hotkey groups.
    groups: Vec<HotkeyGroup>,
}

/// The hotkeys of each of a list of groups.
pub open spec fn groups_view(gs: Seq<HotkeyGroup>) -> Seq<Seq<Hotkey>> {
    gs.map_values(|g: HotkeyGroup| g@)
}

/// Hotkeys grouped by keycode: for each keycode, the hotkeys bound to it, in order.
pub open spec fn bindings(hs: Seq<Hotkey>) -> Map<i32, Seq<Hotkey>>
    decreases hs.len(),
{
    if hs.len() == 0 {
        Map::empty()
    } else {
        let m = bindings(hs.drop_last());
        let h = hs.last();
        m.insert(
            h.key,
            if m.contains_key(h.key) {
                m[h.key].push(h)
            } else {
                seq![h]
            },
        )
    }
}

/// All hotkeys of a list of groups, group after group.
pub open spec fn all_hotkeys(gs: Seq<Seq<Hotkey>>) -> Seq<Hotkey>
    decreases gs.len(),
{
    if gs.len() == 0 {
        Seq::empty()
    } else {
        all_hotkeys(gs.drop_last()) + gs.last()
    }
}

impl HotkeyInfo {
    /// The version bits.
    pub closed spec fn version_spec(&self) -> u32 {
        self.version
    }

    /// The hotkeys of each group.
    pub closed spec fn groups_spec(&self) -> Seq<Seq<Hotkey>> {
        groups_view(self.groups@)
    }

    /// A hotkey file with the given version bits and groups.
    pub fn new(version: u32, groups: Vec<HotkeyGroup>) -> (r: Self)
        ensures
            r.version_spec() == version,
            r.groups_spec() == groups_view(groups@),
    {
        Self { version, groups }
    }

    /// Read a hotkey info structure from uncompressed bytes.
    pub fn from_uncompressed(input: &[u8]) -> (r: Result<Self, ReadError>)
        ensures
            r is Ok <==> info_at(input@) is Some,
            r matches Ok(info) ==> info_at(input@) == Some(
                (info.version_spec(), info.groups_spec()),
            ),
            r matches Err(e) ==> e == ReadError::UnexpectedEof,
    {
        let (version, p) = read_u32_le(input, 0)?;
        let (num_groups, p) = read_u32_le(input, p)?;
        let mut groups: Vec<HotkeyGroup> = Vec::new();
        let mut pos = p;
        let mut i: u32 = 0;
        while i < num_groups
            invariant
                input@.len() >= 8,
                num_groups == le_at(input@, 4, 4),
                version == le_at(input@, 0, 4),
                i <= num_groups,
                groups_at(input@, 8, i as nat) == Some((groups_view(groups@), pos as int)),
            decreases num_groups - i,
        {
            let ghost before = groups_view(groups@);
            match HotkeyGroup::from(input, pos) {
                Ok((g, q)) => {
                    groups.push(g);
                    pos = q;
                    assert(groups_view(groups@) =~= before.push(g@));
                },
                Err(e) => {
                    proof {
                        lemma_groups_at_stuck(input@, 8, i as nat, num_groups as nat);
                    }
                    return Err(e);
                },
            }
            i = i + 1;
        }
        Ok(Self { version, groups })
    }

    /// Reads a hotkey info file (a raw DEFLATE stream).
    pub fn from(input: &[u8]) -> (r: Result<Self, ReadError>)
        ensures
            r is Ok <==> (inflated(input@) is Some && info_at(inflated(input@)->0) is Some),
            r matches Ok(info) ==> inflated(input@) is Some && info_at(inflated(input@)->0) == Some(
                (info.version_spec(), info.groups_spec()),
            ),
    {
        match inflate(input) {
            Some(data) => Self::from_uncompressed(data.as_slice()),
            None => Err(ReadError::InvalidData),
        }
    }

    /// Appends the uncompressed bytes of this hotkey file.
    pub fn write_to_uncompressed(&self, output: &mut Vec<u8>)
        requires
            self.groups_spec().len() <= u32::MAX,
            forall|i: int| 0 <= i < self.groups_spec().len() ==> #[trigger] self.groups_spec()[i].len() <= u32::MAX,
        ensures
            final(output)@ == old(output)@ + info_bytes(self.version_spec(), self.groups_spec()),
    {
        put_u32_le(output, self.version);
        put_u32_le(output, self.groups.len() as u32);
        let ghost start = output@;
        let mut i: usize = 0;
        while i < self.groups.len()
            invariant
                i <= self.groups@.len(),
                self.groups_spec() == groups_view(self.groups@),
                forall|j: int| 0 <= j < self.groups_spec().len() ==> #[trigger] self.groups_spec()[j].len() <= u32::MAX,
                output@ == start + groups_bytes(groups_view(self.groups@.take(i as int))),
            decreases self.groups@.len() - i,
        {
            assert(self.groups_spec()[i as int] == self.groups@[i as int]@);
            self.groups[i].write_to(output);
            proof {
                assert(groups_view(self.groups@.take(i + 1)).drop_last() =~= groups_view(
                    self.groups@.take(i as int),
                ));
            }
            i = i + 1;
            assert(output@ =~= start + groups_bytes(groups_view(self.groups@.take(i as int))));
        }
        assert(self.groups@.take(self.groups@.len() as int) =~= self.groups@);
        assert(output@ =~= old(output)@ + info_bytes(self.version_spec(), self.groups_spec()));
    }

    /// Writes this hotkey info file, compressed as a raw DEFLATE stream.
    pub fn write_to(&self, output: &mut Vec<u8>) -> (r: Result<(), ReadError>)
        requires
            self.groups_spec().len() <= u32::MAX,
            forall|i: int| 0 <= i < self.groups_spec().len() ==> #[trigger] self.groups_spec()[i].len() <= u32::MAX,
        ensures
            r is Ok <==> deflated(info_bytes(self.version_spec(), self.groups_spec())) is Some,
            r is Ok ==> exists|c: Seq<u8>|
                final(output)@ == old(output)@ + c && deflated(
                    info_bytes(self.version_spec(), self.groups_spec()),
                ) == Some(c) && inflated(c) == Some(
                    info_bytes(self.version_spec(), self.groups_spec()),
                ),
            r is Err ==> r == Err::<(), ReadError>(ReadError::InvalidData) && final(output)@
                == old(output)@,
    {
        let mut raw: Vec<u8> = Vec::new();
        self.write_to_uncompressed(&mut raw);
        assert(raw@ =~= info_bytes(self.version_spec(), self.groups_spec()));
        match deflate(raw.as_slice()) {
            Some(c) => {
                crate::codec::push_bytes(output, c.as_slice());
                Ok(())
            },
            None => Err(ReadError::InvalidData),
        }
    }

    /// Gets the file version, as the bit pattern of an `f32`.
    pub fn version(&self) -> (r: u32)
        ensures
            r == self.version_spec(),
    {
        self.version
    }

    /// Returns the hotkey group with index `group_id`, if that group exists.
    pub fn group(&self, group_id: usize) -> (r: Option<&HotkeyGroup>)
        ensures
            r is Some <==> group_id < self.groups_spec().len(),
            r matches Some(g) ==> g@ == self.groups_spec()[group_id as int],
    {
        if group_id < self.groups.len() {
            Some(&self.groups[group_id])
        } else {
            None
        }
    }

    /// Returns the number of hotkey groups in this info's hotkey file.
    pub fn num_groups(&self) -> (r: usize)
        ensures
            r == self.groups_spec().len(),
    {
        self.groups.len()
    }

    /// The hotkey groups in order.
    pub fn iter(&self) -> (r: &[HotkeyGroup])
        ensures
            groups_view(r@) == self.groups_spec(),
    {
        self.groups.as_slice()
    }

    /// Returns a `HotkeyInfo` equivalent to this one, but with the key at index
    /// `key_index` of the group given by `group_index` unbound. Returns an error if either
    /// index does not exist.
    pub fn unbind_key(&self, group_index: usize, key_index: usize) -> (r: Result<Self, IndexError>)
        ensures
            r is Ok <==> group_index < self.groups_spec().len() && key_index
                < self.groups_spec()[group_index as int].len(),
            r matches Ok(info) ==> info.version_spec() == self.version_spec()
                && info.groups_spec() == self.groups_spec().update(
                group_index as int,
                self.groups_spec()[group_index as int].update(
                    key_index as int,
                    Hotkey {
                        key: 0,
                        ctrl: false,
                        alt: false,
                        shift: false,
                        ..self.groups_spec()[group_index as int][key_index as int]
                    },
                ),
            ),
            r matches Err(e) ==> (group_index >= self.groups_spec().len() <==> e is GroupIndex),
    {
        self.bind_key(group_index, key_index, 0, false, false, false)
    }

    /// Returns a `HotkeyInfo` equivalent to this one, but with the key at index
    /// `key_index` of the group given by `group_index` bound with the given key and key
    /// modifiers. Returns an error if either index does not exist.
    pub fn bind_key(
        &self,
        group_index: usize,
        key_index: usize,
        key: i32,
        ctrl: bool,
        alt: bool,
        shift: bool,
    ) -> (r: Result<Self, IndexError>)
        ensures
            r is Ok <==> group_index < self.groups_spec().len() && key_index
                < self.groups_spec()[group_index as int].len(),
            r matches Ok(info) ==> info.version_spec() == self.version_spec()
                && info.groups_spec() == self.groups_spec().update(
                group_index as int,
                self.groups_spec()[group_index as int].update(
                    key_index as int,
                    Hotkey {
                        key,
                        ctrl,
                        alt,
                        shift,
                        ..self.groups_spec()[group_index as int][key_index as int]
                    },
                ),
            ),
            r matches Err(e) ==> (group_index >= self.groups_spec().len() <==> e is GroupIndex),
            r matches Err(IndexError::GroupIndex(e)) ==> e.index_spec() == group_index
                && e.num_groups_spec() == self.groups_spec().len(),
            r matches Err(IndexError::HotkeyIndex(e)) ==> e.index_spec() == key_index
                && e.num_hotkeys_spec() == self.groups_spec()[group_index as int].len(),
    {
        if group_index >= self.num_groups() {
            return Err(IndexError::GroupIndex(GroupIndexError::new(group_index, self.num_groups())));
        }
        assert(self.groups_spec()[group_index as int] == self.groups@[group_index as int]@);
        if key_index >= self.groups[group_index].num_hotkeys() {
            return Err(
                IndexError::HotkeyIndex(
                    HotkeyIndexError::new(key_index, self.groups[group_index].num_hotkeys()),
                ),
            );
        }
        let ghost target = self.groups_spec().update(
            group_index as int,
            self.groups_spec()[group_index as int].update(
                key_index as int,
                Hotkey {
                    key,
                    ctrl,
                    alt,
                    shift,
                    ..self.groups_spec()[group_index as int][key_index as int]
                },
            ),
        );
        let mut groups: Vec<HotkeyGroup> = Vec::new();
        let mut i: usize = 0;
        while i < self.groups.len()
            invariant
                i <= self.groups@.len(),
                group_index < self.groups@.len(),
                self.groups_spec() == groups_view(self.groups@),
                key_index < self.groups_spec()[group_index as int].len(),
                target == self.groups_spec().update(
                    group_index as int,
                    self.groups_spec()[group_index as int].update(
                        key_index as int,
                        Hotkey {
                            key,
                            ctrl,
                            alt,
                            shift,
                            ..self.groups_spec()[group_index as int][key_index as int]
                        },
                    ),
                ),
                groups_view(groups@) == target.take(i as int),
            decreases self.groups@.len() - i,
        {
            let ghost before = groups_view(groups@);
            assert(self.groups_spec()[i as int] == self.groups@[i as int]@);
            let append = if i == group_index {
                match self.groups[i].bind(key_index, key, ctrl, alt, shift) {
                    Ok(g) => g,
                    Err(e) => return Err(IndexError::HotkeyIndex(e)),
                }
            } else {
                self.groups[i].copy()
            };
            assert(append@ == target[i as int]);
            groups.push(append);
            assert(groups_view(groups@) =~= before.push(append@));
            i = i + 1;
            assert(groups_view(groups@) =~= target.take(i as int));
        }
        assert(target.take(target.len() as int) =~= target);
        Ok(Self { groups, version: self.version })
    }

    /// Returns a map `keycode -> [hotkey1, hotkey2, ... hotkeyn]` mapping every used
    /// keybinding to all of the hotkeys to which it is assigned, in file order.
    pub fn bindings_per_keycode(&self) -> (r: HashMap<i32, Vec<Hotkey>>)
        ensures
            r@.dom() == bindings(all_hotkeys(self.groups_spec())).dom(),
            forall|k: i32| #[trigger] r@.contains_key(k) ==> r@[k]@ == bindings(
                all_hotkeys(self.groups_spec()),
            )[k],
    {
        let mut map: HashMap<i32, Vec<Hotkey>> = HashMap::new();
        let ghost gs = self.groups_spec();
        let mut i: usize = 0;
        while i < self.groups.len()
            invariant
                i <= self.groups@.len(),
                gs == groups_view(self.groups@),
                map@.dom() == bindings(all_hotkeys(gs.take(i as int))).dom(),
                forall|k: i32| #[trigger]
                    map@.contains_key(k) ==> map@[k]@ == bindings(all_hotkeys(gs.take(i as int)))[k],
            decreases self.groups@.len() - i,
        {
            let group = &self.groups[i];
            let ghost before = all_hotkeys(gs.take(i as int));
            assert(gs[i as int] == group@);
            let mut j: usize = 0;
            assert(before + group@.take(0) =~= before);
            while j < group.hotkeys.len()
                invariant
                    j <= group.hotkeys@.len(),
                    map@.dom() == bindings(before + group@.take(j as int)).dom(),
                    forall|k: i32| #[trigger]
                        map@.contains_key(k) ==> map@[k]@ == bindings(before + group@.take(j as int))[k],
                decreases group.hotkeys@.len() - j,
            {
                let hotkey = group.hotkeys[j];
                let ghost hs = before + group@.take(j as int);
                assert((before + group@.take(j + 1)) =~= hs.push(hotkey));
                assert((before + group@.take(j + 1)).drop_last() =~= hs);
                let mut list: Vec<Hotkey> = match map.get(&hotkey.key) {
                    Some(v) => copy_hotkeys(v),
                    None => Vec::new(),
                };
                list.push(hotkey);
                map.insert(hotkey.key, list);
                j = j + 1;
                assert(map@.dom() =~= bindings(before + group@.take(j as int)).dom());
            }
            proof {
                assert(group@.take(group@.len() as int) =~= group@);
                assert(gs.take(i + 1).drop_last() =~= gs.take(i as int));
                assert(gs.take(i + 1).last() == gs[i as int]);
            }
            i = i + 1;
        }
        assert(gs.take(gs.len() as int) =~= gs);
        map
    }
}

fn copy_hotkeys(v: &Vec<Hotkey>) -> (r: Vec<Hotkey>)
    ensures
        r@ == v@,
{
    let mut r: Vec<Hotkey> = Vec::new();
    let mut i: usize = 0;
    while i < v.len()
        invariant
            i <= v@.len(),
            r@ == v@.take(i as int),
        decreases v@.len() - i,
    {
        r.push(v[i]);
        i = i + 1;
        assert(r@ =~= v@.take(i as int));
    }
    assert(v@.take(v@.len() as int) =~= v@);
    r
}

/// A group that is not all there stops the reading of later groups too.
proof fn lemma_groups_at_stuck(d: Seq<u8>, p: int, i: nat, n: nat)
    requires
        i < n,
        groups_at(d, p, i) matches Some((_, q)) && group_at(d, q) is None,
    ensures
        groups_at(d, p, n) is None,
    decreases n,
{
    if n > i + 1 {
        lemma_groups_at_stuck(d, p, i, (n - 1) as nat);
    }
}


proof fn lemma_hotkey_read_of_write(pre: Seq<u8>, h: Hotkey, post: Seq<u8>)
    ensures
        hotkey_bytes(h).len() == 12,
        hotkey_at(pre + hotkey_bytes(h) + post, pre.len() as int) == h,
{
    lemma_pow256_values();
    let k = unsigned_of(h.key as int, 4);
    let s = unsigned_of(h.string_id as int, 4);
    lemma_signed_roundtrip(h.key as int, 4);
    lemma_signed_roundtrip(h.string_id as int, 4);
    lemma_signed_roundtrip(h.mouse as int, 1);
    lemma_le_bytes_len(k, 4);
    lemma_le_bytes_len(s, 4);
    let flags = seq![flag_byte(h.ctrl), flag_byte(h.alt), flag_byte(h.shift), unsigned_of(
        h.mouse as int,
        1,
    ) as u8];
    let d = pre + hotkey_bytes(h) + post;
    assert(d =~= pre + le_bytes(k, 4) + (le_bytes(s, 4) + flags + post));
    law_le_read_of_write(pre, k, 4, le_bytes(s, 4) + flags + post);
    assert(d =~= (pre + le_bytes(k, 4)) + le_bytes(s, 4) + (flags + post));
    law_le_read_of_write(pre + le_bytes(k, 4), s, 4, flags + post);
    let p = pre.len() as int;
    assert(d[p + 8] == flag_byte(h.ctrl));
    assert(d[p + 9] == flag_byte(h.alt));
    assert(d[p + 10] == flag_byte(h.shift));
    assert(d[p + 11] == unsigned_of(h.mouse as int, 1) as u8);
}

/// A hotkey is stored in 12 bytes: its key and its string id as little-endian 32-bit
/// numbers, then the Ctrl, Alt and Shift flags in that order (1 when held, 0 when not), then
/// the mouse byte (signed). Reading takes the same places: any nonzero flag byte at offset 8,
/// 9 or 10 means Ctrl, Alt or Shift is held.
pub proof fn law_hotkey_layout(h: Hotkey, d: Seq<u8>, p: int)
    requires
        0 <= p,
        p + 12 <= d.len(),
    ensures
        hotkey_bytes(h).len() == 12,
        le_at(hotkey_bytes(h), 0, 4) == unsigned_of(h.key as int, 4),
        le_at(hotkey_bytes(h), 4, 4) == unsigned_of(h.string_id as int, 4),
        hotkey_bytes(h)[8] == (if h.ctrl { 1u8 } else { 0u8 }),
        hotkey_bytes(h)[9] == (if h.alt { 1u8 } else { 0u8 }),
        hotkey_bytes(h)[10] == (if h.shift { 1u8 } else { 0u8 }),
        signed_of(hotkey_bytes(h)[11] as nat, 1) == h.mouse as int,
        hotkey_at(d, p).mouse as int == signed_of(d[p + 11] as nat, 1),
        hotkey_at(d, p).key as int == signed_of(le_at(d, p, 4), 4),
        hotkey_at(d, p).string_id as int == signed_of(le_at(d, p + 4, 4), 4),
        hotkey_at(d, p).ctrl == (d[p + 8] != 0),
        hotkey_at(d, p).alt == (d[p + 9] != 0),
        hotkey_at(d, p).shift == (d[p + 10] != 0),
{
    lemma_hotkey_read_of_write(Seq::empty(), h, Seq::empty());
    lemma_pow256_values();
    let k = unsigned_of(h.key as int, 4);
    let s = unsigned_of(h.string_id as int, 4);
    lemma_signed_roundtrip(h.key as int, 4);
    lemma_signed_roundtrip(h.string_id as int, 4);
    lemma_le_bytes_len(k, 4);
    lemma_le_bytes_len(s, 4);
    let flags = seq![flag_byte(h.ctrl), flag_byte(h.alt), flag_byte(h.shift), unsigned_of(
        h.mouse as int,
        1,
    ) as u8];
    let b = hotkey_bytes(h);
    assert(b =~= Seq::<u8>::empty() + le_bytes(k, 4) + (le_bytes(s, 4) + flags));
    law_le_read_of_write(Seq::empty(), k, 4, le_bytes(s, 4) + flags);
    assert(b =~= le_bytes(k, 4) + le_bytes(s, 4) + flags);
    law_le_read_of_write(le_bytes(k, 4), s, 4, flags);
    assert(b[8] == flags[0]);
    assert(b[9] == flags[1]);
    assert(b[10] == flags[2]);
    assert(b[11] == flags[3]);
    lemma_signed_roundtrip(h.mouse as int, 1);
    crate::codec::lemma_le_value_bound(seq![d[p + 11]]);
    crate::codec::lemma_le_value_bound(d.subrange(p, p + 4));
    crate::codec::lemma_le_value_bound(d.subrange(p + 4, p + 8));
}

/// A hotkey that is written reads back as itself, whatever stands around it.
pub proof fn law_hotkey_read_of_write(pre: Seq<u8>, h: Hotkey, post: Seq<u8>)
    ensures
        hotkey_at(pre + hotkey_bytes(h) + post, pre.len() as int) == h,
{
    lemma_hotkey_read_of_write(pre, h, post);
}

proof fn lemma_hotkeys_bytes_layout(g: Seq<Hotkey>)
    ensures
        hotkeys_bytes(g).len() == 12 * g.len(),
        forall|i: int|
            0 <= i < g.len() ==> hotkeys_bytes(g).subrange(12 * i, 12 * i + 12) == hotkey_bytes(
                #[trigger] g[i],
            ),
    decreases g.len(),
{
    if g.len() > 0 {
        let init = g.drop_last();
        lemma_hotkeys_bytes_layout(init);
        lemma_hotkey_read_of_write(Seq::empty(), g.last(), Seq::empty());
        let b = hotkeys_bytes(g);
        assert forall|i: int| 0 <= i < g.len() implies b.subrange(12 * i, 12 * i + 12)
            == hotkey_bytes(#[trigger] g[i]) by {
            if i < g.len() - 1 {
                assert(init[i] == g[i]);
                assert(b.subrange(12 * i, 12 * i + 12) =~= hotkeys_bytes(init).subrange(
                    12 * i,
                    12 * i + 12,
                ));
            } else {
                assert(b.subrange(12 * i, 12 * i + 12) =~= hotkey_bytes(g.last()));
            }
        }
    }
}

proof fn lemma_group_read_of_write(pre: Seq<u8>, g: Seq<Hotkey>, post: Seq<u8>)
    requires
        g.len() <= u32::MAX,
    ensures
        group_bytes(g).len() == 4 + 12 * g.len(),
        group_at(pre + group_bytes(g) + post, pre.len() as int) == Some(
            (g, (pre.len() + 4 + 12 * g.len()) as int),
        ),
{
    lemma_pow256_values();
    lemma_le_bytes_len(g.len(), 4);
    lemma_hotkeys_bytes_layout(g);
    let d = pre + group_bytes(g) + post;
    let p = pre.len() as int;
    assert(d =~= pre + le_bytes(g.len(), 4) + (hotkeys_bytes(g) + post));
    law_le_read_of_write(pre, g.len(), 4, hotkeys_bytes(g) + post);
    let parsed = Seq::new(le_at(d, p, 4), |i: int| hotkey_at(d, p + 4 + 12 * i));
    assert forall|i: int| 0 <= i < g.len() implies parsed[i] == g[i] by {
        let pre2 = pre + le_bytes(g.len(), 4) + hotkeys_bytes(g).subrange(0, 12 * i);
        let post2 = hotkeys_bytes(g).subrange(12 * i + 12, hotkeys_bytes(g).len() as int) + post;
        assert(hotkeys_bytes(g) =~= hotkeys_bytes(g).subrange(0, 12 * i) + hotkey_bytes(g[i])
            + hotkeys_bytes(g).subrange(12 * i + 12, hotkeys_bytes(g).len() as int));
        assert(d =~= pre2 + hotkey_bytes(g[i]) + post2);
        lemma_hotkey_read_of_write(pre2, g[i], post2);
    }
    assert(parsed =~= g);
}

proof fn lemma_groups_read_of_write(pre: Seq<u8>, gs: Seq<Seq<Hotkey>>, post: Seq<u8>)
    requires
        forall|i: int| 0 <= i < gs.len() ==> #[trigger] gs[i].len() <= u32::MAX,
    ensures
        groups_at(pre + groups_bytes(gs) + post, pre.len() as int, gs.len()) == Some(
            (gs, (pre.len() + groups_bytes(gs).len()) as int),
        ),
    decreases gs.len(),
{
    if gs.len() == 0 {
        assert(gs =~= Seq::<Seq<Hotkey>>::empty());
    } else {
        let init = gs.drop_last();
        let last = gs.last();
        assert(forall|i: int| 0 <= i < init.len() ==> #[trigger] init[i] == gs[i]);
        let d = pre + groups_bytes(gs) + post;
        assert(d =~= pre + groups_bytes(init) + (group_bytes(last) + post));
        lemma_groups_read_of_write(pre, init, group_bytes(last) + post);
        assert(d =~= (pre + groups_bytes(init)) + group_bytes(last) + post);
        lemma_group_read_of_write(pre + groups_bytes(init), last, post);
        assert(init.push(last) =~= gs);
    }
}

/// Reading the uncompressed bytes of a hotkey file gives back its version and groups.
pub proof fn law_hotkey_file_read_of_write(version: u32, gs: Seq<Seq<Hotkey>>, tail: Seq<u8>)
    requires
        gs.len() <= u32::MAX,
        forall|i: int| 0 <= i < gs.len() ==> #[trigger] gs[i].len() <= u32::MAX,
    ensures
        info_at(info_bytes(version, gs) + tail) == Some((version, gs)),
{
    lemma_pow256_values();
    lemma_le_bytes_len(version as nat, 4);
    lemma_le_bytes_len(gs.len(), 4);
    let d = info_bytes(version, gs) + tail;
    assert(d =~= Seq::<u8>::empty() + le_bytes(version as nat, 4) + (le_bytes(gs.len(), 4)
        + groups_bytes(gs) + tail));
    law_le_read_of_write(Seq::empty(), version as nat, 4, le_bytes(gs.len(), 4) + groups_bytes(gs)
        + tail);
    assert(d =~= le_bytes(version as nat, 4) + le_bytes(gs.len(), 4) + (groups_bytes(gs) + tail));
    law_le_read_of_write(le_bytes(version as nat, 4), gs.len(), 4, groups_bytes(gs) + tail);
    assert(d =~= (le_bytes(version as nat, 4) + le_bytes(gs.len(), 4)) + groups_bytes(gs) + tail);
    lemma_groups_read_of_write(le_bytes(version as nat, 4) + le_bytes(gs.len(), 4), gs, tail);
}

/// A hotkey file that was written, compressed, reads back as the same version and groups.
pub proof fn law_hotkey_file_roundtrip(version: u32, gs: Seq<Seq<Hotkey>>, compressed: Seq<u8>)
    requires
        gs.len() <= u32::MAX,
        forall|i: int| 0 <= i < gs.len() ==> #[trigger] gs[i].len() <= u32::MAX,
        inflated(compressed) == Some(info_bytes(version, gs)),
    ensures
        inflated(compressed) matches Some(d) && info_at(d) == Some((version, gs)),
{
    law_hotkey_file_read_of_write(version, gs, Seq::empty());
    assert(info_bytes(version, gs) + Seq::<u8>::empty() =~= info_bytes(version, gs));
}

fn append(out: &mut Vec<char>, s: &[char])
    ensures
        final(out)@ == old(out)@ + s@,
{
    let mut i: usize = 0;
    while i < s.len()
        invariant
            i <= s.len(),
            out@ == old(out)@ + s@.take(i as int),
        decreases s.len() - i,
    {
        out.push(s[i]);
        i = i + 1;
        assert(out@ =~= old(out)@ + s@.take(i as int));
    }
    assert(s@.take(s.len() as int) =~= s@);
}

} // verus!
