//! Sounds of a data file: groups of sound files.
use crate::codec::{
    i16_at, i16_bytes, i32_at, i32_bytes, lemma_field_lens, lemma_i16_field, lemma_i32_field,
    put_i16_le, put_i32_le, put_u16_le, read_i16_le, read_i32_le, read_u16_le, u16_at, u16_bytes,
    ReadError,
};
use crate::dat::ids::SoundID;
use crate::dat::version::FileVersion;
use vstd::prelude::*;

verus! {

/// A single sound file.
#[derive(Debug, Default, Clone)]
pub struct SoundItem {
    /// Internal file name for this sound file.
    pub filename: String,
    /// DRS file ID for this sound file.
    pub resource_id: i32,
    /// The probability out of 100% that this file will be used for any given playback.
    pub probability: i16,
    /// Use this file for this civilization ID only.
    pub civilization: Option<i16>,
    /// File icon set.
    pub icon_set: Option<i16>,
}

/// The abstract value of a sound item: file name, resource, probability, civilization and
/// icon set.
pub type SoundItemView = (Seq<char>, i32, i16, Option<i16>, Option<i16>);

impl View for SoundItem {
    type V = SoundItemView;

    open spec fn view(&self) -> SoundItemView {
        (self.filename@, self.resource_id, self.probability, self.civilization, self.icon_set)
    }
}

/// The size of a stored sound item: a 13-byte file name, then ten bytes of fields.
pub open spec fn sound_item_size() -> int {
    23
}

/// The sound item stored at `pos`. Its stored file name is skipped, so the name read is
/// empty.
pub open spec fn sound_item_at(data: Seq<u8>, pos: int) -> SoundItemView {
    (
        Seq::empty(),
        i32_at(data, pos + 13),
        i16_at(data, pos + 17),
        Some(i16_at(data, pos + 19)),
        Some(i16_at(data, pos + 21)),
    )
}

/// The ten bytes that a sound item is written as: its resource, probability, civilization
/// and icon set (its file name is not written).
pub open spec fn sound_item_bytes(item: SoundItemView) -> Seq<u8> {
    i32_bytes(item.1) + i16_bytes(item.2) + i16_bytes(item.3.unwrap()) + i16_bytes(item.4.unwrap())
}

impl SoundItem {
    /// Read a sound item at `pos`; returns it and the position after it.
    pub fn from(input: &[u8], pos: usize, _version: FileVersion) -> (r: Result<(Self, usize), ReadError>)
        ensures
            r is Ok <==> pos + sound_item_size() <= input.len(),
            r matches Ok((item, p)) ==> item@ == sound_item_at(input@, pos as int) && p == pos
                + sound_item_size(),
            r matches Err(e) ==> e == ReadError::UnexpectedEof,
    {
        if pos > input.len() || input.len() - pos < 13 {
            return Err(ReadError::UnexpectedEof);
        }
        let p = pos + 13;
        let (resource_id, p) = read_i32_le(input, p)?;
        let (probability, p) = read_i16_le(input, p)?;
        let (civilization, p) = read_i16_le(input, p)?;
        let (icon_set, p) = read_i16_le(input, p)?;
        let item = SoundItem {
            filename: String::new(),
            resource_id,
            probability,
            civilization: Some(civilization),
            icon_set: Some(icon_set),
        };
        assert(item@ =~= sound_item_at(input@, pos as int));
        Ok((item, p))
    }

    /// Append this sound item to `output`. Its civilization and icon set must both be set.
    pub fn write_to(&self, output: &mut Vec<u8>, _version: FileVersion)
        requires
            self.civilization is Some,
            self.icon_set is Some,
        ensures
            final(output)@ == old(output)@ + sound_item_bytes(self@),
    {
        put_i32_le(output, self.resource_id);
        put_i16_le(output, self.probability);
        match self.civilization {
            Some(c) => put_i16_le(output, c),
            None => {},
        }
        match self.icon_set {
            Some(i) => put_i16_le(output, i),
            None => {},
        }
        assert(output@ =~= old(output)@ + sound_item_bytes(self@));
    }
}

/// A sound item that is written reads back, after the 13 bytes of a file name, with the
/// same resource, probability, civilization and icon set, and an empty file name.
pub proof fn law_sound_item_read_of_write(
    prefix: Seq<u8>,
    name: Seq<u8>,
    item: SoundItemView,
    suffix: Seq<u8>,
)
    requires
        name.len() == 13,
        item.3 is Some,
        item.4 is Some,
    ensures
        sound_item_bytes(item).len() == 10,
        sound_item_at(prefix + name + sound_item_bytes(item) + suffix, prefix.len() as int) == (
            Seq::<char>::empty(),
            item.1,
            item.2,
            item.3,
            item.4,
        ),
{
    lemma_field_lens();
    let d = prefix + name + sound_item_bytes(item) + suffix;
    let p = prefix.len() as int;
    assert(d.subrange(p + 13, p + 17) =~= i32_bytes(item.1));
    assert(d.subrange(p + 17, p + 19) =~= i16_bytes(item.2));
    assert(d.subrange(p + 19, p + 21) =~= i16_bytes(item.3.unwrap()));
    assert(d.subrange(p + 21, p + 23) =~= i16_bytes(item.4.unwrap()));
    lemma_i32_field(d, p + 13, item.1);
    lemma_i16_field(d, p + 17, item.2);
    lemma_i16_field(d, p + 19, item.3.unwrap());
    lemma_i16_field(d, p + 21, item.4.unwrap());
}

/// A "conceptual" sound, consisting of one or a group of sound files.
///
/// Items can be picked depending on the player's civilization, and depending on the
/// probabilities for each file.
#[derive(Debug, Default, Clone)]
pub struct Sound {
    /// Unique ID for this sound.
    pub id: SoundID,
    /// Delay before playing the sound.
    pub play_delay: i16,
    /// How long the sound stays cached.
    pub cache_time: i32,
    /// List of sound files in this sound.
    pub items: Vec<SoundItem>,
}

/// The abstract value of a sound: ID, delay, cache time and items.
pub type SoundView = (u16, i16, i32, Seq<SoundItemView>);

impl View for Sound {
    type V = SoundView;

    open spec fn view(&self) -> SoundView {
        (self.id@, self.play_delay, self.cache_time, self.items@.map_values(|i: SoundItem| i@))
    }
}

/// The number of items of the sound stored at `pos`.
pub open spec fn sound_num_items(data: Seq<u8>, pos: int) -> int {
    u16_at(data, pos + 4) as int
}

/// Whether a whole sound is stored at `pos`: ten bytes of fields, then its items.
pub open spec fn sound_readable(data: Seq<u8>, pos: int) -> bool {
    pos + 10 <= data.len() && pos + 10 + sound_item_size() * sound_num_items(data, pos)
        <= data.len()
}

/// The position after the sound stored at `pos`.
pub open spec fn sound_end(data: Seq<u8>, pos: int) -> int {
    pos + 10 + sound_item_size() * sound_num_items(data, pos)
}

/// The sound stored at `pos`: its ID, delay, number of items and cache time, then its items.
pub open spec fn sound_at(data: Seq<u8>, pos: int) -> SoundView {
    (
        u16_at(data, pos),
        i16_at(data, pos + 2),
        i32_at(data, pos + 6),
        Seq::new(
            sound_num_items(data, pos) as nat,
            |i: int| sound_item_at(data, pos + 10 + sound_item_size() * i),
        ),
    )
}

/// The bytes a list of sound items is written as, one after the other.
pub open spec fn sound_items_bytes(items: Seq<SoundItemView>) -> Seq<u8>
    decreases items.len(),
{
    if items.len() == 0 {
        Seq::empty()
    } else {
        sound_items_bytes(items.drop_last()) + sound_item_bytes(items.last())
    }
}

/// The bytes a sound is written as: its ID, delay, number of items and cache time, then its
/// items.
pub open spec fn sound_bytes(s: SoundView) -> Seq<u8> {
    u16_bytes(s.0) + i16_bytes(s.1) + u16_bytes(s.3.len() as u16) + i32_bytes(s.2)
        + sound_items_bytes(s.3)
}

impl Sound {
    /// Read a sound at `pos`; returns it and the position after it.
    pub fn from(input: &[u8], pos: usize, version: FileVersion) -> (r: Result<(Self, usize), ReadError>)
        ensures
            r is Ok <==> sound_readable(input@, pos as int),
            r matches Ok((s, p)) ==> s@ == sound_at(input@, pos as int) && p == sound_end(
                input@,
                pos as int,
            ),
            r matches Err(e) ==> e == ReadError::UnexpectedEof,
    {
        let (id, p) = read_u16_le(input, pos)?;
        let (play_delay, p) = read_i16_le(input, p)?;
        let (num_items, p) = read_u16_le(input, p)?;
        let (cache_time, p) = read_i32_le(input, p)?;
        let mut items: Vec<SoundItem> = Vec::new();
        let mut p = p;
        let mut i: u16 = 0;
        let ghost n = sound_num_items(input@, pos as int);
        while i < num_items
            invariant
                num_items == n,
                n == sound_num_items(input@, pos as int),
                pos + 10 <= input.len(),
                i <= num_items,
                p == pos + 10 + sound_item_size() * i,
                p <= input.len(),
                items@.len() == i,
                forall|k: int|
                    0 <= k < i ==> #[trigger] items@[k]@ == sound_item_at(
                        input@,
                        pos + 10 + sound_item_size() * k,
                    ),
            decreases num_items - i,
        {
            let (item, q) = SoundItem::from(input, p, version)?;
            items.push(item);
            p = q;
            i = i + 1;
        }
        let sound = Sound { id: SoundID::from(id), play_delay, cache_time, items };
        assert(sound@.3 =~= sound_at(input@, pos as int).3);
        Ok((sound, p))
    }

    /// Append this sound to `output`. It must have at most 65535 items, and each of them a
    /// civilization and an icon set.
    pub fn write_to(&self, output: &mut Vec<u8>, version: FileVersion)
        requires
            self.items.len() <= u16::MAX,
            forall|i: int|
                0 <= i < self.items.len() ==> (#[trigger] self.items@[i]).civilization is Some
                    && self.items@[i].icon_set is Some,
        ensures
            final(output)@ == old(output)@ + sound_bytes(self@),
    {
        let ghost items = self@.3;
        put_u16_le(output, u16::from(self.id));
        put_i16_le(output, self.play_delay);
        put_u16_le(output, self.items.len() as u16);
        put_i32_le(output, self.cache_time);
        let ghost head = output@;
        let mut i: usize = 0;
        assert(items.take(0) =~= Seq::<SoundItemView>::empty());
        while i < self.items.len()
            invariant
                i <= self.items.len(),
                items == self@.3,
                forall|k: int|
                    0 <= k < self.items.len() ==> (#[trigger] self.items@[k]).civilization is Some
                        && self.items@[k].icon_set is Some,
                output@ == head + sound_items_bytes(items.take(i as int)),
            decreases self.items.len() - i,
        {
            self.items[i].write_to(output, version);
            proof {
                assert(items.take(i + 1).drop_last() =~= items.take(i as int));
                assert(items.take(i + 1).last() == self.items@[i as int]@);
            }
            i = i + 1;
            assert(output@ =~= head + sound_items_bytes(items.take(i as int)));
        }
        assert(items.take(self.items.len() as int) =~= items);
        assert(output@ =~= old(output)@ + sound_bytes(self@));
    }

    /// Get the number of sound files that are part of this "conceptual" sound.
    pub fn len(&self) -> (n: usize)
        ensures
            n == self@.3.len(),
    {
        self.items.len()
    }

    /// Returns true if there are no sound files.
    pub fn is_empty(&self) -> (r: bool)
        ensures
            r == (self@.3.len() == 0),
    {
        self.items.len() == 0
    }
}

/// A sound is written as its ID (16 bits), its delay (16 bits), its number of items
/// (16 bits) and its cache time (32 bits), little-endian and in that order, before its items.
pub proof fn law_sound_layout(s: SoundView)
    requires
        s.3.len() <= u16::MAX,
    ensures
        sound_bytes(s).len() >= 10,
        u16_at(sound_bytes(s), 0) == s.0,
        i16_at(sound_bytes(s), 2) == s.1,
        u16_at(sound_bytes(s), 4) == s.3.len(),
        i32_at(sound_bytes(s), 6) == s.2,
{
    lemma_sound_head(Seq::empty(), s, Seq::empty());
    assert(Seq::<u8>::empty() + sound_bytes(s) + Seq::<u8>::empty() =~= sound_bytes(s));
}

proof fn lemma_sound_head(pre: Seq<u8>, s: SoundView, post: Seq<u8>)
    requires
        s.3.len() <= u16::MAX,
    ensures
        ({
            let d = pre + sound_bytes(s) + post;
            let p = pre.len() as int;
            &&& p + 10 <= d.len()
            &&& u16_at(d, p) == s.0
            &&& i16_at(d, p + 2) == s.1
            &&& u16_at(d, p + 4) == s.3.len()
            &&& i32_at(d, p + 6) == s.2
        }),
{
    lemma_field_lens();
    let d = pre + sound_bytes(s) + post;
    let p = pre.len() as int;
    let n = s.3.len() as u16;
    assert(d.subrange(p, p + 2) =~= u16_bytes(s.0));
    assert(d.subrange(p + 2, p + 4) =~= i16_bytes(s.1));
    assert(d.subrange(p + 4, p + 6) =~= u16_bytes(n));
    assert(d.subrange(p + 6, p + 10) =~= i32_bytes(s.2));
    crate::codec::lemma_u16_field(d, p, s.0);
    lemma_i16_field(d, p + 2, s.1);
    crate::codec::lemma_u16_field(d, p + 4, n);
    lemma_i32_field(d, p + 6, s.2);
}

/// A sound that is written reads back with the same ID, delay, cache time and number of
/// items, whatever stands around it; a sound without items reads back as itself.
pub proof fn law_sound_read_of_write(pre: Seq<u8>, s: SoundView, post: Seq<u8>)
    requires
        s.3.len() <= u16::MAX,
    ensures
        ({
            let r = sound_at(pre + sound_bytes(s) + post, pre.len() as int);
            &&& r.0 == s.0
            &&& r.1 == s.1
            &&& r.2 == s.2
            &&& r.3.len() == s.3.len()
            &&& s.3.len() == 0 ==> r == s
        }),
{
    lemma_sound_head(pre, s, post);
    let r = sound_at(pre + sound_bytes(s) + post, pre.len() as int);
    if s.3.len() == 0 {
        assert(r.3 =~= s.3);
    }
}

/// A sound item is written as its resource (32 bits), probability, civilization and icon
/// set (16 bits each), little-endian and in that order; reading one skips the 13 bytes of its
/// stored file name and takes the same fields in the same order.
pub proof fn law_sound_item_layout(item: SoundItemView, d: Seq<u8>, p: int)
    requires
        item.3 is Some,
        item.4 is Some,
    ensures
        sound_item_bytes(item).len() == 10,
        i32_at(sound_item_bytes(item), 0) == item.1,
        i16_at(sound_item_bytes(item), 4) == item.2,
        i16_at(sound_item_bytes(item), 6) == item.3.unwrap(),
        i16_at(sound_item_bytes(item), 8) == item.4.unwrap(),
        sound_item_at(d, p).1 == i32_at(d, p + 13),
        sound_item_at(d, p).2 == i16_at(d, p + 17),
        sound_item_at(d, p).3 == Some(i16_at(d, p + 19)),
        sound_item_at(d, p).4 == Some(i16_at(d, p + 21)),
{
    lemma_field_lens();
    let b = sound_item_bytes(item);
    assert(b.subrange(0, 4) =~= i32_bytes(item.1));
    assert(b.subrange(4, 6) =~= i16_bytes(item.2));
    assert(b.subrange(6, 8) =~= i16_bytes(item.3.unwrap()));
    assert(b.subrange(8, 10) =~= i16_bytes(item.4.unwrap()));
    lemma_i32_field(b, 0, item.1);
    lemma_i16_field(b, 4, item.2);
    lemma_i16_field(b, 6, item.3.unwrap());
    lemma_i16_field(b, 8, item.4.unwrap());
}

} // verus!
