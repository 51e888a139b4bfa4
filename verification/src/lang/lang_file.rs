//! A language file: a map from string keys to strings, kept in insertion order.
use crate::codec::push_bytes;
use crate::lang::encoding::{decode_utf8_text, decode_windows_1252, windows_1252_decoded};
use crate::lang::syntax::{lines, text_lines};
use crate::lang::string_key::{key_of_text, key_text, KeyView, StringKey};
use crate::lang::syntax::{
    escape, escaped, first_non_white, is_white_space, is_whitespace, trim, trimmed, unescape,
    unescaped,
};
use crate::text::{chars_of, decimal_digits, parse_u32, parsed_u32, string_of};
use vstd::prelude::*;
use vstd::utf8::{decode_utf8, encode_utf8, valid_utf8};

verus! {

/// The keys of a list of entries, in order.
pub open spec fn key_seq(e: Seq<(StringKey, String)>) -> Seq<KeyView> {
    e.map_values(|p: (StringKey, String)| p.0@)
}

/// The position of key `k` among entries with distinct keys.
pub open spec fn key_index(e: Seq<(StringKey, String)>, k: KeyView) -> int {
    choose|i: int| 0 <= i < e.len() && e[i].0@ == k
}

/// The map that a list of entries with distinct keys describes.
pub open spec fn entry_map(e: Seq<(StringKey, String)>) -> Map<KeyView, Seq<char>> {
    Map::new(|k: KeyView| key_seq(e).contains(k), |k: KeyView| e[key_index(e, k)].1@)
}

pub proof fn lemma_entry_lookup(e: Seq<(StringKey, String)>, i: int)
    requires
        key_seq(e).no_duplicates(),
        0 <= i < e.len(),
    ensures
        entry_map(e).contains_key(e[i].0@),
        entry_map(e)[e[i].0@] == e[i].1@,
        key_index(e, e[i].0@) == i,
{
    assert(key_seq(e)[i] == e[i].0@);
    let j = key_index(e, e[i].0@);
    assert(key_seq(e)[j] == e[j].0@);
}

pub proof fn lemma_entry_absent(e: Seq<(StringKey, String)>, k: KeyView)
    requires
        forall|i: int| 0 <= i < e.len() ==> e[i].0@ != k,
    ensures
        !entry_map(e).contains_key(k),
{
    if key_seq(e).contains(k) {
        let i = choose|i: int| 0 <= i < key_seq(e).len() && key_seq(e)[i] == k;
        assert(e[i].0@ == k);
    }
}

pub proof fn lemma_entry_push(e: Seq<(StringKey, String)>, k: StringKey, v: String)
    requires
        key_seq(e).no_duplicates(),
        forall|i: int| 0 <= i < e.len() ==> e[i].0@ != k@,
    ensures
        key_seq(e.push((k, v))).no_duplicates(),
        entry_map(e.push((k, v))) =~= entry_map(e).insert(k@, v@),
{
    let f = e.push((k, v));
    assert(key_seq(f) =~= key_seq(e).push(k@));
    assert forall|a: KeyView| #[trigger] entry_map(f).contains_key(a) <==> entry_map(
        e,
    ).insert(k@, v@).contains_key(a) by {
        if key_seq(e).contains(a) {
            let i = choose|i: int| 0 <= i < key_seq(e).len() && key_seq(e)[i] == a;
            assert(key_seq(f)[i] == a);
        }
        if key_seq(f).contains(a) && a != k@ {
            let i = choose|i: int| 0 <= i < key_seq(f).len() && key_seq(f)[i] == a;
            assert(key_seq(e)[i] == a);
        }
        assert(key_seq(f)[e.len() as int] == k@);
    }
    assert forall|a: KeyView| #[trigger] entry_map(f).contains_key(a) implies entry_map(f)[a]
        == entry_map(e).insert(k@, v@)[a] by {
        if a == k@ {
            lemma_entry_lookup(f, e.len() as int);
        } else {
            let i = choose|i: int| 0 <= i < key_seq(f).len() && key_seq(f)[i] == a;
            assert(f[i].0@ == a);
            lemma_entry_lookup(f, i);
            lemma_entry_lookup(e, i);
        }
    }
}

pub proof fn lemma_entry_update(e: Seq<(StringKey, String)>, i: int, k: StringKey, v: String)
    requires
        key_seq(e).no_duplicates(),
        0 <= i < e.len(),
        e[i].0@ == k@,
    ensures
        key_seq(e.update(i, (k, v))).no_duplicates(),
        entry_map(e.update(i, (k, v))) =~= entry_map(e).insert(k@, v@),
{
    let f = e.update(i, (k, v));
    assert(key_seq(f) =~= key_seq(e));
    lemma_entry_lookup(e, i);
    assert forall|a: KeyView| #[trigger] entry_map(f).contains_key(a) implies entry_map(f)[a]
        == entry_map(e).insert(k@, v@)[a] by {
        let j = choose|j: int| 0 <= j < key_seq(f).len() && key_seq(f)[j] == a;
        assert(f[j].0@ == a);
        lemma_entry_lookup(f, j);
        if j != i {
            lemma_entry_lookup(e, j);
        }
    }
}

pub proof fn lemma_entry_remove(e: Seq<(StringKey, String)>, i: int)
    requires
        key_seq(e).no_duplicates(),
        0 <= i < e.len(),
    ensures
        key_seq(e.remove(i)).no_duplicates(),
        entry_map(e.remove(i)) =~= entry_map(e).remove(e[i].0@),
{
    let f = e.remove(i);
    let k = e[i].0@;
    assert(key_seq(f) =~= key_seq(e).remove(i));
    assert forall|a: int, b: int| 0 <= a < b < key_seq(f).len() implies key_seq(f)[a] != key_seq(
        f,
    )[b] by {
        let a2 = if a < i {
            a
        } else {
            a + 1
        };
        let b2 = if b < i {
            b
        } else {
            b + 1
        };
        assert(key_seq(f)[a] == key_seq(e)[a2]);
        assert(key_seq(f)[b] == key_seq(e)[b2]);
    }
    assert forall|x: KeyView| #[trigger] entry_map(f).contains_key(x) <==> entry_map(e).remove(
        k,
    ).contains_key(x) by {
        if key_seq(f).contains(x) {
            let j = choose|j: int| 0 <= j < key_seq(f).len() && key_seq(f)[j] == x;
            let j2 = if j < i {
                j
            } else {
                j + 1
            };
            assert(key_seq(e)[j2] == x);
            assert(j2 != i);
            assert(key_seq(e)[i] == k);
            assert(x != k);
            assert(key_seq(e).contains(x));
        }
        if key_seq(e).contains(x) && x != k {
            let j = choose|j: int| 0 <= j < key_seq(e).len() && key_seq(e)[j] == x;
            assert(j != i);
            let j2 = if j < i {
                j
            } else {
                j - 1
            };
            assert(key_seq(f)[j2] == x);
            assert(key_seq(f).contains(x));
        }
    }
    assert forall|x: KeyView| #[trigger] entry_map(f).contains_key(x) implies entry_map(f)[x]
        == entry_map(e)[x] by {
        let j = choose|j: int| 0 <= j < key_seq(f).len() && key_seq(f)[j] == x;
        assert(f[j].0@ == x);
        lemma_entry_lookup(f, j);
        let j2 = if j < i {
            j
        } else {
            j + 1
        };
        assert(f[j] == e[j2]);
        lemma_entry_lookup(e, j2);
    }
}

pub proof fn lemma_entry_len(e: Seq<(StringKey, String)>)
    requires
        key_seq(e).no_duplicates(),
    ensures
        entry_map(e).dom().finite(),
        entry_map(e).dom().len() == e.len(),
{
    assert(entry_map(e).dom() =~= key_seq(e).to_set());
    key_seq(e).unique_seq_to_set();
}


/// Errors that may occur when loading a language file.
#[derive(Debug, Clone, Copy, PartialEq, Eq, Structural)]
pub enum LoadError {
    /// The strings could not be read from the DLL; it probably does not contain any or
    /// is malformed.
    PeError,
    /// The data could not be read: it ended early, or was not valid text.
    IoError,
    /// A numeric string ID could not be parsed into an integer value.
    ParseIntError,
}

/// How one line of an INI language file is read.
pub ghost enum IniLine {
    /// Comments and lines without `=` are ignored.
    Skip,
    /// The part before the first `=` is not a number.
    BadId,
    /// The number before the first `=`, and the unescaped text after it.
    Entry(u32, Seq<char>),
}

/// How one line of a key-value language file is read.
pub ghost enum KeyvalLine {
    /// Blank lines, `//` comments and lines without a quoted value are ignored.
    Skip,
    /// The key, and the unescaped text between the quotes.
    Entry(KeyView, Seq<char>),
}

/// The index of the first `c` at or after `i`, or the length.
pub open spec fn char_index(s: Seq<char>, c: char, i: int) -> int
    decreases s.len() - i,
{
    if i >= s.len() || i < 0 {
        s.len() as int
    } else if s[i] == c {
        i
    } else {
        char_index(s, c, i + 1)
    }
}

/// The index of the first white-space character at or after `i`, or the length.
pub open spec fn white_index(s: Seq<char>, i: int) -> int
    decreases s.len() - i,
{
    if i >= s.len() || i < 0 {
        s.len() as int
    } else if is_white_space(s[i]) {
        i
    } else {
        white_index(s, i + 1)
    }
}

/// The meaning of a line of an INI language file.
pub open spec fn ini_line(line: Seq<char>) -> IniLine {
    let e = char_index(line, '=', 0);
    if line.len() > 0 && line[0] == ';' {
        IniLine::Skip
    } else if e >= line.len() {
        IniLine::Skip
    } else {
        match parsed_u32(line.subrange(0, e)) {
            None => IniLine::BadId,
            Some(n) => IniLine::Entry(n, unescaped(line.subrange(e + 1, line.len() as int), false)),
        }
    }
}

/// The meaning of a line of a key-value language file.
pub open spec fn keyval_line(line: Seq<char>) -> KeyvalLine {
    let t = trimmed(line);
    let w = white_index(t, 0);
    let rest = if w < t.len() {
        t.subrange(w + 1, t.len() as int)
    } else {
        Seq::empty()
    };
    let value = rest.subrange(first_non_white(rest, 0), rest.len() as int);
    if t.len() == 0 || (t.len() >= 2 && t[0] == '/' && t[1] == '/') {
        KeyvalLine::Skip
    } else if value.len() > 0 && value[0] == '"' {
        KeyvalLine::Entry(key_of_text(t.subrange(0, w)), unescaped(value.drop_first(), true))
    } else {
        KeyvalLine::Skip
    }
}

/// The INI text of a list of entries: `id=escaped value` lines for the numeric keys.
pub open spec fn ini_text(e: Seq<(StringKey, String)>) -> Seq<char>
    decreases e.len(),
{
    if e.len() == 0 {
        Seq::empty()
    } else {
        ini_text(e.drop_last()) + if e.last().0@ is Num {
            key_text(e.last().0@) + seq!['='] + escaped(e.last().1@, false) + seq!['\n']
        } else {
            Seq::empty()
        }
    }
}

/// The key-value text of a list of entries: `key "escaped value"` lines.
pub open spec fn keyval_text(e: Seq<(StringKey, String)>) -> Seq<char>
    decreases e.len(),
{
    if e.len() == 0 {
        Seq::empty()
    } else {
        keyval_text(e.drop_last()) + key_text(e.last().0@) + seq![' ', '"'] + escaped(
            e.last().1@,
            true,
        ) + seq!['"', '\n']
    }
}

proof fn lemma_char_index_bounds(s: Seq<char>, c: char, i: int)
    requires
        0 <= i <= s.len(),
    ensures
        i <= char_index(s, c, i) <= s.len(),
        char_index(s, c, i) < s.len() ==> s[char_index(s, c, i)] == c,
    decreases s.len() - i,
{
    if i < s.len() && s[i] != c {
        lemma_char_index_bounds(s, c, i + 1);
    }
}

proof fn lemma_white_index_bounds(s: Seq<char>, i: int)
    requires
        0 <= i <= s.len(),
    ensures
        i <= white_index(s, i) <= s.len(),
    decreases s.len() - i,
{
    if i < s.len() && !is_white_space(s[i]) {
        lemma_white_index_bounds(s, i + 1);
    }
}

proof fn lemma_first_non_white_bounds(s: Seq<char>, i: int)
    requires
        0 <= i <= s.len(),
    ensures
        i <= first_non_white(s, i) <= s.len(),
    decreases s.len() - i,
{
    if i < s.len() && is_white_space(s[i]) {
        lemma_first_non_white_bounds(s, i + 1);
    }
}

fn find_char(s: &[char], c: char) -> (r: usize)
    ensures
        r == char_index(s@, c, 0),
{
    let mut i: usize = 0;
    while i < s.len() && s[i] != c
        invariant
            i <= s.len(),
            char_index(s@, c, 0) == char_index(s@, c, i as int),
        decreases s.len() - i,
    {
        i = i + 1;
    }
    i
}

fn find_white(s: &[char], from: usize) -> (r: usize)
    requires
        from <= s.len(),
    ensures
        r == white_index(s@, from as int),
{
    let mut i: usize = from;
    while i < s.len() && !is_whitespace(s[i])
        invariant
            from <= i <= s.len(),
            white_index(s@, from as int) == white_index(s@, i as int),
        decreases s.len() - i,
    {
        i = i + 1;
    }
    i
}

fn skip_white(s: &[char], from: usize) -> (r: usize)
    requires
        from <= s.len(),
    ensures
        r == first_non_white(s@, from as int),
{
    let mut i: usize = from;
    while i < s.len() && is_whitespace(s[i])
        invariant
            from <= i <= s.len(),
            first_non_white(s@, from as int) == first_non_white(s@, i as int),
        decreases s.len() - i,
    {
        i = i + 1;
    }
    i
}

fn sub_chars(s: &[char], from: usize, to: usize) -> (r: Vec<char>)
    requires
        from <= to <= s.len(),
    ensures
        r@ == s@.subrange(from as int, to as int),
{
    let mut r: Vec<char> = Vec::new();
    let mut i = from;
    while i < to
        invariant
            from <= i <= to,
            to <= s.len(),
            r@ == s@.subrange(from as int, i as int),
        decreases to - i,
    {
        r.push(s[i]);
        i = i + 1;
        assert(r@ =~= s@.subrange(from as int, i as int));
    }
    r
}

fn append_chars(out: &mut Vec<char>, s: &[char])
    ensures
        final(out)@ == old(out)@ + s@,
{
    let mut i: usize = 0;
    while i < s.len()
        invariant
            i <= s.len(),
            out@ == old(out)@ + s@.take(i as int),
        decreases s.len() - i,
    {
        out.push(s[i]);
        i = i + 1;
        assert(out@ =~= old(out)@ + s@.take(i as int));
    }
    assert(s@.take(s.len() as int) =~= s@);
}


/// The map after reading the lines of an INI file into `m`, or `None` when a line has an id
/// that is not a number.
pub open spec fn ini_lines_applied(m: Map<KeyView, Seq<char>>, ls: Seq<Seq<char>>) -> Option<
    Map<KeyView, Seq<char>>,
>
    decreases ls.len(),
{
    if ls.len() == 0 {
        Some(m)
    } else {
        match ini_line(ls[0]) {
            IniLine::Skip => ini_lines_applied(m, ls.drop_first()),
            IniLine::BadId => None,
            IniLine::Entry(n, v) => ini_lines_applied(m.insert(KeyView::Num(n), v), ls.drop_first()),
        }
    }
}

/// The map after reading the lines of a key-value file into `m`.
pub open spec fn keyval_lines_applied(m: Map<KeyView, Seq<char>>, ls: Seq<Seq<char>>) -> Map<
    KeyView,
    Seq<char>,
>
    decreases ls.len(),
{
    if ls.len() == 0 {
        m
    } else {
        match keyval_line(ls[0]) {
            KeyvalLine::Skip => keyval_lines_applied(m, ls.drop_first()),
            KeyvalLine::Entry(k, v) => keyval_lines_applied(m.insert(k, v), ls.drop_first()),
        }
    }
}

/// A key that the key-value format writes and reads back as itself: its text is not empty,
/// holds no white space and does not start a comment, and a name does not read as a number.
pub open spec fn keyval_key_ok(k: KeyView) -> bool {
    &&& key_text(k).len() > 0
    &&& forall|i: int| 0 <= i < key_text(k).len() ==> !is_white_space(#[trigger] key_text(k)[i])
    &&& !(key_text(k).len() >= 2 && key_text(k)[0] == '/' && key_text(k)[1] == '/')
    &&& k matches KeyView::Name(s) ==> parsed_u32(s) is None
}

/// The line that the key-value format writes for one entry, without its line break.
pub open spec fn keyval_entry_line(k: KeyView, v: Seq<char>) -> Seq<char> {
    key_text(k) + seq![' ', '"'] + escaped(v, true) + seq!['"']
}

/// Every number key is written and read back as itself.
proof fn lemma_num_key_ok(n: u32)
    ensures
        keyval_key_ok(KeyView::Num(n)),
{
    crate::text::lemma_decimal_digits_value(n as nat);
    let t = key_text(KeyView::Num(n));
    assert(crate::text::is_digit(t[0]));
    assert forall|i: int| 0 <= i < t.len() implies !is_white_space(#[trigger] t[i]) by {
        assert(crate::text::is_digit(t[i]));
    }
}

proof fn lemma_white_index_at(t: Seq<char>, w: int, i: int)
    requires
        0 <= i <= w < t.len(),
        forall|j: int| 0 <= j < w ==> !is_white_space(#[trigger] t[j]),
        is_white_space(t[w]),
    ensures
        white_index(t, i) == w,
    decreases w - i,
{
    if i < w {
        lemma_white_index_at(t, w, i + 1);
    }
}

proof fn lemma_last_non_white_end(s: Seq<char>)
    requires
        s.len() > 0,
        !is_white_space(s.last()),
    ensures
        crate::lang::syntax::last_non_white_end(s, s.len() as int) == s.len(),
{
}

/// The line written for an entry reads back as that entry.
proof fn lemma_keyval_entry_line(k: KeyView, v: Seq<char>)
    requires
        keyval_key_ok(k),
        forall|i: int| 0 <= i < v.len() ==> v[i] != '\\',
    ensures
        keyval_line(keyval_entry_line(k, v)) == KeyvalLine::Entry(k, v),
        forall|j: int| 0 <= j < keyval_entry_line(k, v).len() ==> #[trigger] keyval_entry_line(k, v)[j] != '\n',
        crate::lang::syntax::without_cr(keyval_entry_line(k, v)) == keyval_entry_line(k, v),
{
    let key = key_text(k);
    let esc = escaped(v, true);
    let line = keyval_entry_line(k, v);
    let kl = key.len() as int;
    crate::lang::syntax::lemma_escaped_no_newline(v, true);
    assert forall|j: int| 0 <= j < line.len() implies #[trigger] line[j] != '\n' by {
        if j < kl {
            assert(line[j] == key[j]);
            assert(!is_white_space(key[j]));
        } else if kl + 2 <= j < kl + 2 + esc.len() {
            assert(line[j] == esc[j - kl - 2]);
        }
    }
    assert(line.last() == '"');
    assert(line[0] == key[0]);
    assert(!is_white_space(key[0]));
    assert(first_non_white(line, 0) == 0);
    lemma_last_non_white_end(line);
    assert(trimmed(line) =~= line);
    assert forall|j: int| 0 <= j < kl implies !is_white_space(#[trigger] line[j]) by {
        assert(line[j] == key[j]);
    }
    assert(line[kl] == ' ');
    lemma_white_index_at(line, kl, 0);
    assert(line.subrange(0, kl) =~= key);
    let rest = line.subrange(kl + 1, line.len() as int);
    assert(rest =~= seq!['"'] + esc + seq!['"']);
    assert(rest[0] == '"');
    assert(first_non_white(rest, 0) == 0);
    assert(rest.subrange(0, rest.len() as int) =~= rest);
    assert(rest.drop_first() =~= esc + seq!['"']);
    crate::lang::syntax::law_unescape_escape(v, true, seq!['"']);
    crate::lang::string_key::law_key_text_roundtrip(k);
    if kl >= 2 {
        assert(line[1] == key[1]);
    } else {
        assert(line[1] == ' ');
    }
}

/// Applying lines one list after another is applying them all.
proof fn lemma_keyval_applied_append(m: Map<KeyView, Seq<char>>, a: Seq<Seq<char>>, b: Seq<Seq<char>>)
    ensures
        keyval_lines_applied(m, a + b) == keyval_lines_applied(keyval_lines_applied(m, a), b),
    decreases a.len(),
{
    if a.len() == 0 {
        assert(a + b =~= b);
    } else {
        assert((a + b)[0] == a[0]);
        assert((a + b).drop_first() =~= a.drop_first() + b);
        match keyval_line(a[0]) {
            KeyvalLine::Skip => lemma_keyval_applied_append(m, a.drop_first(), b),
            KeyvalLine::Entry(k, v) => lemma_keyval_applied_append(m.insert(k, v), a.drop_first(), b),
        }
    }
}

/// The text written for entries holds their lines, one per entry.
proof fn lemma_keyval_text_lines(e: Seq<(StringKey, String)>)
    requires
        forall|i: int| 0 <= i < e.len() ==> keyval_key_ok(#[trigger] e[i].0@),
        forall|i: int, j: int| 0 <= i < e.len() && 0 <= j < e[i].1@.len() ==> #[trigger] e[i].1@[j] != '\\',
    ensures
        text_lines(keyval_text(e)) == e.map_values(|p: (StringKey, String)| keyval_entry_line(p.0@, p.1@)),
        e.len() > 0 ==> keyval_text(e).len() > 0 && keyval_text(e).last() == '\n',
    decreases e.len(),
{
    if e.len() > 0 {
        let init = e.drop_last();
        lemma_keyval_text_lines(init);
        let (k, v) = e.last();
        let line = keyval_entry_line(k@, v@);
        assert(e[e.len() - 1] == e.last());
        lemma_keyval_entry_line(k@, v@);
        assert(keyval_text(e) =~= keyval_text(init) + line.push('\n'));
        crate::lang::syntax::lemma_text_lines_single(line);
        if init.len() > 0 {
            crate::lang::syntax::lemma_text_lines_append(keyval_text(init), line.push('\n'));
        } else {
            assert(keyval_text(init) + line.push('\n') =~= line.push('\n'));
            assert(text_lines(keyval_text(init)) =~= Seq::<Seq<char>>::empty());
        }
        assert(e.map_values(|p: (StringKey, String)| keyval_entry_line(p.0@, p.1@)) =~= init.map_values(
            |p: (StringKey, String)| keyval_entry_line(p.0@, p.1@),
        ).push(line));
    }
}

/// Applying the lines written for entries inserts the entries in order.
proof fn lemma_keyval_apply_lines(e: Seq<(StringKey, String)>)
    requires
        key_seq(e).no_duplicates(),
        forall|i: int| 0 <= i < e.len() ==> keyval_key_ok(#[trigger] e[i].0@),
        forall|i: int, j: int| 0 <= i < e.len() && 0 <= j < e[i].1@.len() ==> #[trigger] e[i].1@[j] != '\\',
    ensures
        keyval_lines_applied(
            Map::empty(),
            e.map_values(|p: (StringKey, String)| keyval_entry_line(p.0@, p.1@)),
        ) == entry_map(e),
    decreases e.len(),
{
    let ls = e.map_values(|p: (StringKey, String)| keyval_entry_line(p.0@, p.1@));
    if e.len() == 0 {
        assert(entry_map(e) =~= Map::<KeyView, Seq<char>>::empty());
    } else {
        let init = e.drop_last();
        let (k, v) = e.last();
        assert(e[e.len() - 1] == e.last());
        assert(key_seq(init) =~= key_seq(e).drop_last());
        lemma_keyval_apply_lines(init);
        let lsi = init.map_values(|p: (StringKey, String)| keyval_entry_line(p.0@, p.1@));
        let line = keyval_entry_line(k@, v@);
        assert(ls =~= lsi + seq![line]);
        lemma_keyval_applied_append(Map::empty(), lsi, seq![line]);
        lemma_keyval_entry_line(k@, v@);
        let before = keyval_lines_applied(Map::empty(), lsi);
        assert(seq![line].drop_first() =~= Seq::<Seq<char>>::empty());
        assert(keyval_lines_applied(before, seq![line]) == keyval_lines_applied(
            before.insert(k@, v@),
            Seq::<Seq<char>>::empty(),
        ));
        assert forall|i: int| 0 <= i < init.len() implies init[i].0@ != k@ by {
            assert(key_seq(e)[i] == init[i].0@);
            assert(key_seq(e)[e.len() - 1] == k@);
        }
        lemma_entry_push(init, k, v);
        assert(init.push((k, v)) =~= e);
    }
}

/// A language file written in the key-value format reads back as the same entries, when its
/// keys read back as themselves (numbers, or names without white space that do not read as
/// numbers or start a comment) and its texts hold no backslash.
pub proof fn law_keyval_read_of_write(e: Seq<(StringKey, String)>)
    requires
        key_seq(e).no_duplicates(),
        forall|i: int| 0 <= i < e.len() ==> keyval_key_ok(#[trigger] e[i].0@),
        forall|i: int, j: int| 0 <= i < e.len() && 0 <= j < e[i].1@.len() ==> #[trigger] e[i].1@[j] != '\\',
    ensures
        valid_utf8(encode_utf8(keyval_text(e))),
        keyval_lines_applied(
            Map::empty(),
            text_lines(decode_utf8(encode_utf8(keyval_text(e)))),
        ) == entry_map(e),
{
    vstd::utf8::encode_utf8_valid_utf8(keyval_text(e));
    vstd::utf8::encode_utf8_decode_utf8(keyval_text(e));
    lemma_keyval_text_lines(e);
    lemma_keyval_apply_lines(e);
}

/// A number key always reads back as itself in the key-value format.
pub proof fn law_keyval_num_key(n: u32)
    ensures
        keyval_key_ok(KeyView::Num(n)),
{
    lemma_num_key_ok(n);
}

/// The entries of `e` whose flag in `keep` is set, in their order.
pub open spec fn kept_entries(e: Seq<(StringKey, String)>, keep: Seq<bool>) -> Seq<(StringKey, String)>
    decreases e.len(),
{
    if e.len() == 0 {
        Seq::empty()
    } else if keep.len() > 0 && keep.last() {
        kept_entries(e.drop_last(), keep.drop_last()).push(e.last())
    } else {
        kept_entries(e.drop_last(), keep.drop_last())
    }
}

proof fn lemma_char_index_at(t: Seq<char>, c: char, w: int, i: int)
    requires
        0 <= i <= w < t.len(),
        forall|j: int| 0 <= j < w ==> #[trigger] t[j] != c,
        t[w] == c,
    ensures
        char_index(t, c, i) == w,
    decreases w - i,
{
    if i < w {
        lemma_char_index_at(t, c, w, i + 1);
    }
}

/// Unescaping text without backslashes, where no quote ends it, gives the text itself.
proof fn lemma_unescaped_plain(v: Seq<char>, prev: char)
    requires
        prev != '\\',
        forall|i: int| 0 <= i < v.len() ==> v[i] != '\\',
    ensures
        crate::lang::syntax::unescaped_after(v, prev, false) == v,
    decreases v.len(),
{
    if v.len() > 0 {
        lemma_unescaped_plain(v.drop_first(), v[0]);
        assert(seq![v[0]] + v.drop_first() =~= v);
    }
}

/// The line `n=value` of an INI file, where `n` is written in decimal, reads as the entry of
/// `n` with the text after the `=`, after unescaping; quotes in the text are kept as they are.
proof fn lemma_ini_number_line(n: u32, value: Seq<char>)
    ensures
        ini_line(decimal_digits(n as nat) + seq!['='] + value) == IniLine::Entry(
            n,
            unescaped(value, false),
        ),
{
    let key = decimal_digits(n as nat);
    let line = key + seq!['='] + value;
    crate::text::lemma_decimal_digits_value(n as nat);
    crate::text::lemma_decimal_digits_parse(n as nat);
    let k = key.len() as int;
    assert forall|j: int| 0 <= j < k implies #[trigger] line[j] != '=' by {
        assert(line[j] == key[j]);
        assert(crate::text::is_digit(key[j]));
    }
    assert(line[k] == '=');
    lemma_char_index_at(line, '=', k, 0);
    assert(line[0] == key[0]);
    assert(crate::text::is_digit(key[0]));
    assert(line.subrange(0, k) =~= key);
    assert(line.subrange(k + 1, line.len() as int) =~= value);
}

/// An INI line of a number, `=` and a text without backslashes stores exactly that text
/// under the number, quotes included.
pub proof fn law_ini_line_plain(n: u32, value: Seq<char>)
    requires
        forall|i: int| 0 <= i < value.len() ==> value[i] != '\\',
    ensures
        ini_line(decimal_digits(n as nat) + seq!['='] + value) == IniLine::Entry(n, value),
{
    lemma_ini_number_line(n, value);
    lemma_unescaped_plain(value, 'x');
}

/// The line that writing an INI file gives for a numbered entry reads back as that entry,
/// for texts without backslashes (quotes, line breaks and tabs included).
pub proof fn law_ini_line_read_of_write(n: u32, value: Seq<char>)
    requires
        forall|i: int| 0 <= i < value.len() ==> value[i] != '\\',
    ensures
        ini_line(key_text(KeyView::Num(n)) + seq!['='] + escaped(value, false)) == IniLine::Entry(
            n,
            value,
        ),
{
    lemma_ini_number_line(n, escaped(value, false));
    crate::lang::syntax::law_unescape_escape(value, false, Seq::empty());
    assert(escaped(value, false) + Seq::<char>::empty() =~= escaped(value, false));
}

/// The language file types of AoE2.
#[derive(Debug, Clone, Copy, PartialEq, Eq, Structural)]
pub enum LangFileType {
    /// An AoK/AoC-style DLL file with language resource strings.
    Dll,
    /// A Voobly-style .ini language file.
    Ini,
    /// An HD Edition key-value language file.
    KeyValue,
}

/// An error when parsing a string to a language file type; holds the string.
#[derive(Debug)]
pub struct ParseLangFileTypeError(pub String);

/// The file type named by a string, compared case-insensitively.
pub open spec fn lang_file_type_named(s: Seq<char>) -> Option<LangFileType> {
    let l = crate::lang::encoding::lowercase(s);
    if l == seq!['d', 'l', 'l'] {
        Some(LangFileType::Dll)
    } else if l == seq!['i', 'n', 'i'] {
        Some(LangFileType::Ini)
    } else if l == seq!['k', 'e', 'y', '-', 'v', 'a', 'l', 'u', 'e'] {
        Some(LangFileType::KeyValue)
    } else {
        None
    }
}

fn chars_equal(a: &[char], b: &[char]) -> (r: bool)
    ensures
        r == (a@ == b@),
{
    if a.len() != b.len() {
        return false;
    }
    let mut i: usize = 0;
    while i < a.len()
        invariant
            i <= a.len(),
            a.len() == b.len(),
            forall|j: int| 0 <= j < i ==> a@[j] == b@[j],
        decreases a.len() - i,
    {
        if a[i] != b[i] {
            return false;
        }
        i = i + 1;
    }
    assert(a@ =~= b@);
    true
}

impl LangFileType {
    /// Parses a file type name: `dll`, `ini` or `key-value`, in any case.
    pub fn from_str(s: &str) -> (r: Result<LangFileType, ParseLangFileTypeError>)
        ensures
            r matches Ok(t) ==> lang_file_type_named(s@) == Some(t),
            r matches Err(e) ==> lang_file_type_named(s@) is None && e.0@ == s@,
    {
        let lower = crate::lang::encoding::to_lowercase(s);
        let l = chars_of(lower.as_str());
        if chars_equal(l.as_slice(), &['d', 'l', 'l']) {
            Ok(LangFileType::Dll)
        } else if chars_equal(l.as_slice(), &['i', 'n', 'i']) {
            Ok(LangFileType::Ini)
        } else if chars_equal(l.as_slice(), &['k', 'e', 'y', '-', 'v', 'a', 'l', 'u', 'e']) {
            Ok(LangFileType::KeyValue)
        } else {
            Err(ParseLangFileTypeError(s.to_owned()))
        }
    }
}

/// A mapping of `StringKey` key to `String` values.
///
/// May be read from or written to one of the three file formats for Aoe2
/// language files. Entries are kept in the order in which their keys were first
/// inserted.
#[derive(Debug)]
pub struct LangFile {
    entries: Vec<(StringKey, String)>,
}

impl View for LangFile {
    type V = Map<KeyView, Seq<char>>;

    closed spec fn view(&self) -> Map<KeyView, Seq<char>> {
        entry_map(self.entries@)
    }
}

impl LangFile {
    #[verifier::type_invariant]
    closed spec fn keys_distinct(&self) -> bool {
        key_seq(self.entries@).no_duplicates()
    }

    /// The keys in iteration order.
    pub closed spec fn key_order(&self) -> Seq<KeyView> {
        key_seq(self.entries@)
    }

    /// The entries in iteration order.
    pub closed spec fn entry_seq(&self) -> Seq<(StringKey, String)> {
        self.entries@
    }

    /// The listed entries describe the map, each key once.
    pub fn entries_describe_map(&self)
        ensures
            key_seq(self.entry_seq()).no_duplicates(),
            self@ == entry_map(self.entry_seq()),
            self.key_order() == key_seq(self.entry_seq()),
            self@.dom().finite(),
            self@.dom().len() == self.entry_seq().len(),
    {
        proof {
            use_type_invariant(self);
            lemma_entry_len(self.entries@);
        }
    }

    /// Creates an empty language file.
    pub fn new() -> (r: Self)
        ensures
            r@ == Map::<KeyView, Seq<char>>::empty(),
            r.entry_seq().len() == 0,
    {
        let r = LangFile { entries: Vec::new() };
        assert(r@ =~= Map::<KeyView, Seq<char>>::empty());
        r
    }

    fn find(&self, k: &StringKey) -> (r: Option<usize>)
        ensures
            r matches Some(i) ==> i < self.entries@.len() && self.entries@[i as int].0@ == k@,
            r is None ==> forall|i: int|
                0 <= i < self.entries@.len() ==> self.entries@[i].0@ != k@,
    {
        let mut i: usize = 0;
        while i < self.entries.len()
            invariant
                i <= self.entries@.len(),
                forall|j: int| 0 <= j < i ==> self.entries@[j].0@ != k@,
            decreases self.entries@.len() - i,
        {
            if self.entries[i].0.same(k) {
                return Some(i);
            }
            i = i + 1;
        }
        None
    }

    /// Returns `true` if this language file contains no key-value pairs.
    pub fn is_empty(&self) -> (r: bool)
        ensures
            r == (self@.dom().len() == 0),
            self@.dom().finite(),
    {
        proof {
            use_type_invariant(self);
            lemma_entry_len(self.entries@);
        }
        self.entries.len() == 0
    }

    /// Returns the number of key-value pairs in this language file.
    pub fn len(&self) -> (r: usize)
        ensures
            r == self@.dom().len(),
            self@.dom().finite(),
    {
        proof {
            use_type_invariant(self);
            lemma_entry_len(self.entries@);
        }
        self.entries.len()
    }

    /// Removes all key-value pairs from this language file.
    pub fn clear(&mut self)
        ensures
            final(self)@ == Map::<KeyView, Seq<char>>::empty(),
    {
        self.entries = Vec::new();
        assert(self@ =~= Map::<KeyView, Seq<char>>::empty());
    }

    /// Clears this language file, returning all key-value pairs in iteration order.
    pub fn drain(&mut self) -> (r: Vec<(StringKey, String)>)
        ensures
            r@ == old(self).entry_seq(),
            final(self)@ == Map::<KeyView, Seq<char>>::empty(),
    {
        let mut taken = Vec::new();
        std::mem::swap(&mut taken, &mut self.entries);
        assert(self@ =~= Map::<KeyView, Seq<char>>::empty());
        taken
    }

    /// Returns `true` if the map contains a value for key `k`.
    pub fn contains_key(&self, k: &StringKey) -> (r: bool)
        ensures
            r == self@.contains_key(k@),
    {
        proof {
            use_type_invariant(self);
        }
        match self.find(k) {
            Some(i) => {
                proof {
                    lemma_entry_lookup(self.entries@, i as int);
                }
                true
            },
            None => {
                proof {
                    lemma_entry_absent(self.entries@, k@);
                }
                false
            },
        }
    }

    /// Returns a reference to the value corresponding to the key.
    pub fn get(&self, k: &StringKey) -> (r: Option<&String>)
        ensures
            r is Some <==> self@.contains_key(k@),
            r matches Some(v) ==> v@ == self@[k@],
    {
        proof {
            use_type_invariant(self);
        }
        match self.find(k) {
            Some(i) => {
                proof {
                    lemma_entry_lookup(self.entries@, i as int);
                }
                Some(&self.entries[i].1)
            },
            None => {
                proof {
                    lemma_entry_absent(self.entries@, k@);
                }
                None
            },
        }
    }

    /// Inserts a key-value pair into this language file.
    ///
    /// Returns `None` if the language file did not have the key present. If the key was
    /// present, the value is updated, and the old value is returned.
    pub fn insert(&mut self, k: StringKey, v: String) -> (r: Option<String>)
        ensures
            final(self)@ == old(self)@.insert(k@, v@),
            r is Some <==> old(self)@.contains_key(k@),
            r matches Some(o) ==> o@ == old(self)@[k@],
    {
        proof {
            use_type_invariant(&*self);
        }
        match self.find(&k) {
            Some(i) => {
                let ghost e = self.entries@;
                proof {
                    lemma_entry_lookup(e, i as int);
                    lemma_entry_update(e, i as int, k, v);
                }
                let mut entries = Vec::new();
                std::mem::swap(&mut entries, &mut self.entries);
                let (_old_key, old_value) = entries.remove(i);
                entries.insert(i, (k, v));
                assert(entries@ =~= e.update(i as int, (k, v)));
                self.entries = entries;
                Some(old_value)
            },
            None => {
                let ghost e = self.entries@;
                proof {
                    lemma_entry_absent(e, k@);
                    lemma_entry_push(e, k, v);
                }
                let mut entries = Vec::new();
                std::mem::swap(&mut entries, &mut self.entries);
                entries.push((k, v));
                self.entries = entries;
                None
            },
        }
    }

    /// Removes a key-value pair from the map, returning the value at the key if the key
    /// was previously in the map.
    pub fn remove(&mut self, k: &StringKey) -> (r: Option<String>)
        ensures
            final(self)@ == old(self)@.remove(k@),
            r is Some <==> old(self)@.contains_key(k@),
            r matches Some(o) ==> o@ == old(self)@[k@],
    {
        proof {
            use_type_invariant(&*self);
        }
        match self.find(k) {
            Some(i) => {
                let ghost e = self.entries@;
                proof {
                    lemma_entry_lookup(e, i as int);
                    lemma_entry_remove(e, i as int);
                }
                let mut entries = Vec::new();
                std::mem::swap(&mut entries, &mut self.entries);
                let (_key, value) = entries.remove(i);
                self.entries = entries;
                Some(value)
            },
            None => {
                proof {
                    lemma_entry_absent(self.entries@, k@);
                    assert(self@.remove(k@) =~= self@);
                }
                None
            },
        }
    }

    /// Keeps only the entries for which `f` returns `true`, in their order. (`f` sees each
    /// key and text; it cannot change the text.)
    pub fn retain<F: Fn(&StringKey, &String) -> bool>(&mut self, f: F)
        requires
            forall|i: int|
                0 <= i < old(self).entry_seq().len() ==> f.requires(
                    (&old(self).entry_seq()[i].0, &old(self).entry_seq()[i].1),
                ),
        ensures
            exists|keep: Seq<bool>|
                {
                    &&& keep.len() == old(self).entry_seq().len()
                    &&& forall|i: int|
                        0 <= i < keep.len() ==> f.ensures(
                            (&old(self).entry_seq()[i].0, &old(self).entry_seq()[i].1),
                            #[trigger] keep[i],
                        )
                    &&& final(self).entry_seq() == kept_entries(old(self).entry_seq(), keep)
                },
    {
        proof {
            use_type_invariant(&*self);
        }
        let ghost e = self.entries@;
        assert(e == old(self).entry_seq());
        assert forall|m: int| 0 <= m < e.len() implies f.requires((&e[m].0, &e[m].1)) by {
            assert(e[m] == old(self).entry_seq()[m]);
        }
        let mut entries: Vec<(StringKey, String)> = Vec::new();
        std::mem::swap(&mut entries, &mut self.entries);
        let mut kept: Vec<(StringKey, String)> = Vec::new();
        let ghost mut keep: Seq<bool> = Seq::empty();
        let n = entries.len();
        let mut i: usize = 0;
        while i < n
            invariant
                n == e.len(),
                i <= n,
                entries@ == e.subrange(i as int, n as int),
                key_seq(e).no_duplicates(),
                keep.len() == i,
                forall|m: int| 0 <= m < i ==> f.ensures((&e[m].0, &e[m].1), #[trigger] keep[m]),
                forall|m: int| 0 <= m < n ==> f.requires((&e[m].0, &e[m].1)),
                kept@ == kept_entries(e.take(i as int), keep),
                key_seq(kept@).no_duplicates(),
                forall|j: int| 0 <= j < kept@.len() ==> key_seq(e.take(i as int)).contains(#[trigger] key_seq(kept@)[j]),
            decreases n - i,
        {
            assert(entries@[0] == e[i as int]);
            let (k, v) = entries.remove(0);
            let b = f(&k, &v);
            let ghost before = kept@;
            proof {
                assert(e.take(i + 1).drop_last() =~= e.take(i as int));
                assert(e.take(i + 1).last() == e[i as int]);
                assert(keep.push(b).drop_last() =~= keep);
                assert forall|j: int| 0 <= j < before.len() implies key_seq(before)[j] != e[i as int].0@ by {
                    let w = key_seq(before)[j];
                    assert(key_seq(e.take(i as int)).contains(w));
                    let m = choose|m: int| 0 <= m < key_seq(e.take(i as int)).len() && key_seq(e.take(i as int))[m] == w;
                    assert(key_seq(e)[m] == w);
                    assert(key_seq(e)[i as int] == e[i as int].0@);
                }
            }
            if b {
                kept.push((k, v));
            }
            proof {
                keep = keep.push(b);
                assert(entries@ =~= e.subrange(i + 1, n as int));
                assert forall|j: int| 0 <= j < kept@.len() implies key_seq(e.take(i + 1)).contains(
                    #[trigger] key_seq(kept@)[j],
                ) by {
                    if j < before.len() {
                        let w = key_seq(before)[j];
                        assert(key_seq(kept@)[j] == w);
                        let m = choose|m: int| 0 <= m < key_seq(e.take(i as int)).len() && key_seq(e.take(i as int))[m] == w;
                        assert(key_seq(e.take(i + 1))[m] == w);
                    } else {
                        assert(key_seq(kept@)[j] == e[i as int].0@);
                        assert(key_seq(e.take(i + 1))[i as int] == e[i as int].0@);
                    }
                }
                if b {
                    assert(key_seq(kept@) =~= key_seq(before).push(e[i as int].0@));
                } else {
                    assert(kept@ =~= before);
                }
            }
            i = i + 1;
        }
        assert(e.take(n as int) =~= e);
        self.entries = kept;
        assert(self.entry_seq() == kept_entries(old(self).entry_seq(), keep));
        assert(forall|m: int| 0 <= m < keep.len() ==> f.ensures(
            (&old(self).entry_seq()[m].0, &old(self).entry_seq()[m].1),
            #[trigger] keep[m],
        ));
    }

    /// The key-value pairs in iteration order.
    pub fn iter(&self) -> (r: &[(StringKey, String)])
        ensures
            r@ == self.entry_seq(),
    {
        self.entries.as_slice()
    }

    /// The keys in iteration order.
    pub fn keys(&self) -> (r: Vec<StringKey>)
        ensures
            r@.map_values(|k: StringKey| k@) == self.key_order(),
    {
        let mut r: Vec<StringKey> = Vec::new();
        let mut i: usize = 0;
        while i < self.entries.len()
            invariant
                i <= self.entries@.len(),
                r@.len() == i,
                forall|j: int| 0 <= j < i ==> #[trigger] r@[j]@ == self.entries@[j].0@,
            decreases self.entries@.len() - i,
        {
            r.push(self.entries[i].0.clone());
            i = i + 1;
        }
        assert(r@.map_values(|k: StringKey| k@) =~= self.key_order());
        r
    }

    /// The values in iteration order.
    pub fn values(&self) -> (r: Vec<String>)
        ensures
            r@.len() == self.entry_seq().len(),
            forall|j: int| 0 <= j < r@.len() ==> #[trigger] r@[j]@ == self.entry_seq()[j].1@,
    {
        let mut r: Vec<String> = Vec::new();
        let mut i: usize = 0;
        while i < self.entries.len()
            invariant
                i <= self.entries@.len(),
                r@.len() == i,
                forall|j: int| 0 <= j < i ==> #[trigger] r@[j]@ == self.entries@[j].1@,
            decreases self.entries@.len() - i,
        {
            r.push(self.entries[i].1.clone());
            i = i + 1;
        }
        r
    }

    /// Parses a single line from an ini language file and inserts its key value pair.
    pub fn load_ini_line(&mut self, line: &str) -> (r: Result<(), LoadError>)
        ensures
            match ini_line(line@) {
                IniLine::Skip => r is Ok && final(self)@ == old(self)@,
                IniLine::BadId => r == Err::<(), LoadError>(LoadError::ParseIntError)
                    && final(self)@ == old(self)@,
                IniLine::Entry(n, v) => r is Ok
                    && final(self)@ == old(self)@.insert(KeyView::Num(n), v),
            },
    {
        let l = chars_of(line);
        if l.len() > 0 && l[0] == ';' {
            return Ok(());
        }
        let e = find_char(l.as_slice(), '=');
        proof {
            lemma_char_index_bounds(l@, '=', 0);
        }
        if e >= l.len() {
            return Ok(());
        }
        let id_chars = sub_chars(l.as_slice(), 0, e);
        let id = match parse_u32(id_chars.as_slice()) {
            Some(n) => n,
            None => return Err(LoadError::ParseIntError),
        };
        let value_chars = sub_chars(l.as_slice(), e + 1, l.len());
        let value = unescape(value_chars.as_slice(), false);
        self.insert(StringKey::Num(id), string_of(value.as_slice()));
        Ok(())
    }

    /// Parses an HD Edition string line and inserts its key value pair.
    pub fn load_keyval_line(&mut self, line: &str) -> (r: Result<(), LoadError>)
        ensures
            r is Ok,
            match keyval_line(line@) {
                KeyvalLine::Skip => final(self)@ == old(self)@,
                KeyvalLine::Entry(k, v) => final(self)@ == old(self)@.insert(k, v),
            },
    {
        let l = chars_of(line);
        let t = trim(l.as_slice());
        if t.len() == 0 || (t.len() >= 2 && t[0] == '/' && t[1] == '/') {
            return Ok(());
        }
        let w = find_white(t.as_slice(), 0);
        proof {
            lemma_white_index_bounds(t@, 0);
        }
        let id_chars = sub_chars(t.as_slice(), 0, w);
        let rest = if w < t.len() {
            sub_chars(t.as_slice(), w + 1, t.len())
        } else {
            Vec::new()
        };
        assert(w >= t.len() ==> rest@ =~= Seq::<char>::empty());
        let v0 = skip_white(rest.as_slice(), 0);
        proof {
            lemma_first_non_white_bounds(rest@, 0);
        }
        if v0 < rest.len() && rest[v0] == '"' {
            let value_chars = sub_chars(rest.as_slice(), v0 + 1, rest.len());
            let ghost value = rest@.subrange(v0 as int, rest@.len() as int);
            assert(value_chars@ =~= value.drop_first());
            let value = unescape(value_chars.as_slice(), true);
            let key = StringKey::from_chars(id_chars.as_slice());
            self.insert(key, string_of(value.as_slice()));
        }
        Ok(())
    }

    /// The text of this language file in the ini format, in iteration order.
    pub fn ini_chars(&self) -> (r: Vec<char>)
        ensures
            r@ == ini_text(self.entry_seq()),
    {
        let mut out: Vec<char> = Vec::new();
        let mut i: usize = 0;
        while i < self.entries.len()
            invariant
                i <= self.entries@.len(),
                out@ == ini_text(self.entries@.take(i as int)),
            decreases self.entries@.len() - i,
        {
            let ghost before = out@;
            let key = &self.entries[i].0;
            if key.is_numeric() {
                let id = key.to_chars();
                append_chars(&mut out, id.as_slice());
                out.push('=');
                let v = chars_of(self.entries[i].1.as_str());
                let esc = escape(v.as_slice(), false);
                append_chars(&mut out, esc.as_slice());
                out.push('\n');
            }
            proof {
                assert(self.entries@.take(i + 1).drop_last() =~= self.entries@.take(i as int));
                assert(self.entries@.take(i + 1).last() == self.entries@[i as int]);
            }
            i = i + 1;
            assert(out@ =~= ini_text(self.entries@.take(i as int)));
        }
        assert(self.entries@.take(self.entries@.len() as int) =~= self.entries@);
        out
    }

    /// The text of this language file in the key-value format, in iteration order.
    pub fn keyval_chars(&self) -> (r: Vec<char>)
        ensures
            r@ == keyval_text(self.entry_seq()),
    {
        let mut out: Vec<char> = Vec::new();
        let mut i: usize = 0;
        while i < self.entries.len()
            invariant
                i <= self.entries@.len(),
                out@ == keyval_text(self.entries@.take(i as int)),
            decreases self.entries@.len() - i,
        {
            let id = self.entries[i].0.to_chars();
            append_chars(&mut out, id.as_slice());
            out.push(' ');
            out.push('"');
            let v = chars_of(self.entries[i].1.as_str());
            let esc = escape(v.as_slice(), true);
            append_chars(&mut out, esc.as_slice());
            out.push('"');
            out.push('\n');
            proof {
                assert(self.entries@.take(i + 1).drop_last() =~= self.entries@.take(i as int));
                assert(self.entries@.take(i + 1).last() == self.entries@[i as int]);
            }
            i = i + 1;
            assert(out@ =~= keyval_text(self.entries@.take(i as int)));
        }
        assert(self.entries@.take(self.entries@.len() as int) =~= self.entries@);
        out
    }

    /// Writes this language file to an output buffer using the ini format (UTF-8).
    pub fn write_to_ini(&self, output: &mut Vec<u8>)
        ensures
            final(output)@ == old(output)@ + encode_utf8(ini_text(self.entry_seq())),
    {
        let text = string_of(self.ini_chars().as_slice());
        push_bytes(output, text.as_str().as_bytes());
    }

    /// Writes this language file to an output buffer using the key-value format (UTF-8).
    pub fn write_to_keyval(&self, output: &mut Vec<u8>)
        ensures
            final(output)@ == old(output)@ + encode_utf8(keyval_text(self.entry_seq())),
    {
        let text = string_of(self.keyval_chars().as_slice());
        push_bytes(output, text.as_str().as_bytes());
    }


    /// Reads a language file from a .INI file, like the ones used by Voobly and the
    /// aoc-language-ini mod; the text is decoded as Windows codepage 1252.
    pub fn read_ini(&mut self, input: &[u8]) -> (r: Result<(), LoadError>)
        ensures
            r is Ok <==> ini_lines_applied(old(self)@, text_lines(windows_1252_decoded(input@)))
                is Some,
            r is Ok ==> ini_lines_applied(old(self)@, text_lines(windows_1252_decoded(input@)))
                == Some(final(self)@),
            r is Err ==> r == Err::<(), LoadError>(LoadError::ParseIntError),
    {
        let text = match decode_windows_1252(input) {
            Some(t) => t,
            None => return Err(LoadError::IoError),
        };
        let chars = chars_of(text.as_str());
        let ls = lines(chars.as_slice());
        let ghost all = text_lines(chars@);
        let ghost start = self@;
        let mut i: usize = 0;
        assert(all.subrange(0, all.len() as int) =~= all);
        while i < ls.len()
            invariant
                i <= ls@.len(),
                ls@.map_values(|v: Vec<char>| v@) == all,
                all == text_lines(windows_1252_decoded(input@)),
                start == old(self)@,
                ini_lines_applied(start, all) == ini_lines_applied(
                    self@,
                    all.subrange(i as int, all.len() as int),
                ),
            decreases ls@.len() - i,
        {
            let line = string_of(ls[i].as_slice());
            let ghost rest = all.subrange(i as int, all.len() as int);
            assert(rest[0] == ls@[i as int]@);
            assert(rest.drop_first() =~= all.subrange(i + 1, all.len() as int));
            let ghost before = self@;
            match self.load_ini_line(line.as_str()) {
                Ok(()) => {},
                Err(e) => {
                    assert(ini_lines_applied(before, rest) is None);
                    return Err(e);
                },
            }
            i = i + 1;
        }
        assert(all.subrange(i as int, all.len() as int) =~= Seq::<Seq<char>>::empty());
        Ok(())
    }

    /// Reads a language file from an HD Edition-style key-value file (UTF-8).
    pub fn read_keyval(&mut self, input: &[u8]) -> (r: Result<(), LoadError>)
        ensures
            r is Ok <==> valid_utf8(input@),
            r is Ok ==> final(self)@ == keyval_lines_applied(
                old(self)@,
                text_lines(decode_utf8(input@)),
            ),
            r matches Err(e) ==> e == LoadError::IoError,
    {
        let text = match decode_utf8_text(input) {
            Some(t) => t,
            None => return Err(LoadError::IoError),
        };
        let chars = chars_of(text);
        let ls = lines(chars.as_slice());
        let ghost all = text_lines(chars@);
        let ghost start = self@;
        let mut i: usize = 0;
        assert(all.subrange(0, all.len() as int) =~= all);
        while i < ls.len()
            invariant
                i <= ls@.len(),
                ls@.map_values(|v: Vec<char>| v@) == all,
                keyval_lines_applied(start, all) == keyval_lines_applied(
                    self@,
                    all.subrange(i as int, all.len() as int),
                ),
            decreases ls@.len() - i,
        {
            let line = string_of(ls[i].as_slice());
            let ghost rest = all.subrange(i as int, all.len() as int);
            assert(rest[0] == ls@[i as int]@);
            assert(rest.drop_first() =~= all.subrange(i + 1, all.len() as int));
            let _ = self.load_keyval_line(line.as_str());
            i = i + 1;
        }
        assert(all.subrange(i as int, all.len() as int) =~= Seq::<Seq<char>>::empty());
        Ok(())
    }
}

} // verus!
