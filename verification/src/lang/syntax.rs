//! Escaping, whitespace and line splitting of language file text.
use vstd::prelude::*;

verus! {

/// Characters with the Unicode `White_Space` property (what `char::is_whitespace` tests).
pub open spec fn is_white_space(c: char) -> bool {
    ('\u{9}' <= c <= '\u{d}') || c == ' ' || c == '\u{85}' || c == '\u{a0}' || c == '\u{1680}'
        || ('\u{2000}' <= c <= '\u{200a}') || c == '\u{2028}' || c == '\u{2029}' || c
        == '\u{202f}' || c == '\u{205f}' || c == '\u{3000}'
}

/// Whether `c` has the Unicode `White_Space` property.
pub fn is_whitespace(c: char) -> (r: bool)
    ensures
        r == is_white_space(c),
{
    ('\u{9}' <= c && c <= '\u{d}') || c == ' ' || c == '\u{85}' || c == '\u{a0}' || c
        == '\u{1680}' || ('\u{2000}' <= c && c <= '\u{200a}') || c == '\u{2028}' || c
        == '\u{2029}' || c == '\u{202f}' || c == '\u{205f}' || c == '\u{3000}'
}

/// The escape sequence of one character.
pub open spec fn escape_char(c: char, quoted: bool) -> Seq<char> {
    if c == '\\' {
        seq!['\\', '\\']
    } else if c == '\n' {
        seq!['\\', 'n']
    } else if c == '\r' {
        seq!['\\', 'r']
    } else if c == '\t' {
        seq!['\\', 't']
    } else if c == '"' && quoted {
        seq!['\\', '"']
    } else {
        seq![c]
    }
}

/// Text with backslashes, line breaks and tabs (and quotes, when `quoted`) escaped.
pub open spec fn escaped(s: Seq<char>, quoted: bool) -> Seq<char>
    decreases s.len(),
{
    if s.len() == 0 {
        Seq::empty()
    } else {
        escape_char(s[0], quoted) + escaped(s.drop_first(), quoted)
    }
}

/// Unescaping of `s` when the previous character was `prev`.
///
/// A backslash starts an escape; `\\`, `\n`, `\r`, `\t` (and `\"` when `quoted`) stand
/// for one character, any other character after a backslash stands for itself preceded
/// by the backslash. When `quoted`, an unescaped `"` ends the text.
pub open spec fn unescaped_after(s: Seq<char>, prev: char, quoted: bool) -> Seq<char>
    decreases s.len(),
{
    if s.len() == 0 {
        Seq::empty()
    } else {
        let c = s[0];
        let rest = unescaped_after(s.drop_first(), c, quoted);
        if prev == '\\' && c == '\\' {
            seq!['\\'] + rest
        } else if prev == '\\' && c == 'n' {
            seq!['\n'] + rest
        } else if prev == '\\' && c == 'r' {
            seq!['\r'] + rest
        } else if prev == '\\' && c == 't' {
            seq!['\t'] + rest
        } else if prev == '\\' && c == '"' && quoted {
            seq!['"'] + rest
        } else if c == '"' && quoted {
            Seq::empty()
        } else if c == '\\' {
            rest
        } else if prev == '\\' {
            seq!['\\', c] + rest
        } else {
            seq![c] + rest
        }
    }
}

/// Unescaping of a whole text.
pub open spec fn unescaped(s: Seq<char>, quoted: bool) -> Seq<char> {
    unescaped_after(s, 'x', quoted)
}

/// Escapes backslashes, line breaks and tabs, and quotes when `quoted`.
pub fn escape(source: &[char], quoted: bool) -> (r: Vec<char>)
    ensures
        r@ == escaped(source@, quoted),
{
    let mut out: Vec<char> = Vec::new();
    let mut i: usize = 0;
    assert(source@.subrange(0, source@.len() as int) =~= source@);
    assert(out@ + escaped(source@, quoted) =~= escaped(source@, quoted));
    while i < source.len()
        invariant
            i <= source.len(),
            out@ + escaped(source@.subrange(i as int, source@.len() as int), quoted) == escaped(
                source@,
                quoted,
            ),
        decreases source.len() - i,
    {
        let c = source[i];
        proof {
            let t = source@.subrange(i as int, source@.len() as int);
            assert(t.drop_first() =~= source@.subrange(i + 1, source@.len() as int));
            assert(t[0] == c);
        }
        let ghost before = out@;
        if c == '\\' {
            out.push('\\');
            out.push('\\');
        } else if c == '\n' {
            out.push('\\');
            out.push('n');
        } else if c == '\r' {
            out.push('\\');
            out.push('r');
        } else if c == '\t' {
            out.push('\\');
            out.push('t');
        } else if c == '"' && quoted {
            out.push('\\');
            out.push('"');
        } else {
            out.push(c);
        }
        assert(out@ =~= before + escape_char(c, quoted));
        assert(out@ + escaped(source@.subrange(i + 1, source@.len() as int), quoted) =~= before
            + escaped(source@.subrange(i as int, source@.len() as int), quoted));
        i = i + 1;
    }
    assert(source@.subrange(source@.len() as int, source@.len() as int) =~= Seq::<char>::empty());
    assert(out@ + Seq::<char>::empty() =~= out@);
    out
}

/// Undoes escaping; when `quoted`, stops at the first unescaped `"`.
pub fn unescape(escaped_text: &[char], quoted: bool) -> (r: Vec<char>)
    ensures
        r@ == unescaped(escaped_text@, quoted),
{
    let s = escaped_text;
    let mut out: Vec<char> = Vec::new();
    let mut prev: char = 'x';  // Innocuous character
    let mut i: usize = 0;
    let ghost mut stopped = false;
    assert(s@.subrange(0, s@.len() as int) =~= s@);
    assert(out@ + unescaped(s@, quoted) =~= unescaped(s@, quoted));
    while i < s.len()
        invariant
            i <= s.len(),
            out@ + unescaped_after(s@.subrange(i as int, s@.len() as int), prev, quoted)
                == unescaped(s@, quoted),
            stopped ==> unescaped_after(s@.subrange(i as int, s@.len() as int), prev, quoted)
                == Seq::<char>::empty(),
        ensures
            i <= s.len(),
            out@ + unescaped_after(s@.subrange(i as int, s@.len() as int), prev, quoted)
                == unescaped(s@, quoted),
            stopped || i == s.len(),
            stopped ==> unescaped_after(s@.subrange(i as int, s@.len() as int), prev, quoted)
                == Seq::<char>::empty(),
        decreases s.len() - i,
    {
        let c = s[i];
        let ghost t = s@.subrange(i as int, s@.len() as int);
        let ghost before = out@;
        proof {
            assert(t.drop_first() =~= s@.subrange(i + 1, s@.len() as int));
            assert(t[0] == c);
        }
        if prev == '\\' && c == '\\' {
            out.push('\\');
        } else if prev == '\\' && c == 'n' {
            out.push('\n');
        } else if prev == '\\' && c == 'r' {
            out.push('\r');
        } else if prev == '\\' && c == 't' {
            out.push('\t');
        } else if prev == '\\' && c == '"' && quoted {
            out.push('"');
        } else if c == '"' && quoted {
            proof {
                stopped = true;
            }
            break ;
        } else if c == '\\' {
        } else if prev == '\\' {
            out.push('\\');
            out.push(c);
        } else {
            out.push(c);
        }
        assert(out@ + unescaped_after(s@.subrange(i + 1, s@.len() as int), c, quoted) =~= before
            + unescaped_after(t, prev, quoted));
        prev = c;
        i = i + 1;
    }
    proof {
        if i == s.len() {
            assert(s@.subrange(i as int, s@.len() as int) =~= Seq::<char>::empty());
        }
        assert(out@ + Seq::<char>::empty() =~= out@);
    }
    out
}

/// Unescaping does not depend on which non-backslash character came before.
pub proof fn lemma_unescaped_prev(s: Seq<char>, p1: char, p2: char, quoted: bool)
    requires
        p1 != '\\',
        p2 != '\\',
    ensures
        unescaped_after(s, p1, quoted) == unescaped_after(s, p2, quoted),
{
}

/// Unescaping an escaped text gives the text back, provided the text holds no backslash.
/// (A backslash is escaped as two, and the second of them is taken to start another escape:
/// `\` followed by `n` comes back as a backslash and a line break.)
/// When `quoted`, the escaped text is followed by its closing quote and anything after it.
pub proof fn law_unescape_escape(s: Seq<char>, quoted: bool, tail: Seq<char>)
    requires
        forall|i: int| 0 <= i < s.len() ==> s[i] != '\\',
        quoted ==> tail.len() > 0 && tail[0] == '"',
        !quoted ==> tail.len() == 0,
    ensures
        unescaped(escaped(s, quoted) + tail, quoted) == s,
    decreases s.len(),
{
    lemma_unescape_escape_after(s, quoted, tail, 'x');
}

proof fn lemma_unescape_escape_after(s: Seq<char>, quoted: bool, tail: Seq<char>, prev: char)
    requires
        prev != '\\',
        forall|i: int| 0 <= i < s.len() ==> s[i] != '\\',
        quoted ==> tail.len() > 0 && tail[0] == '"',
        !quoted ==> tail.len() == 0,
    ensures
        unescaped_after(escaped(s, quoted) + tail, prev, quoted) == s,
    decreases s.len(),
{
    if s.len() == 0 {
        assert(escaped(s, quoted) + tail =~= tail);
        if !quoted {
            assert(tail =~= Seq::<char>::empty());
        } else {
            assert(unescaped_after(tail, prev, quoted) == Seq::<char>::empty());
        }
    } else {
        let c = s[0];
        let rest = escaped(s.drop_first(), quoted) + tail;
        assert(escaped(s, quoted) + tail =~= escape_char(c, quoted) + rest);
        let e = escape_char(c, quoted) + rest;
        assert(seq![c] + s.drop_first() =~= s);
        if escape_char(c, quoted).len() == 2 {
            let second = escape_char(c, quoted)[1];
            assert(second != '\\');
            lemma_unescape_escape_after(s.drop_first(), quoted, tail, second);
            assert(e.drop_first().drop_first() =~= rest);
            assert(e.drop_first()[0] == second);
            assert(e[0] == '\\');
            assert(unescaped_after(e.drop_first(), '\\', quoted) == seq![c] + unescaped_after(
                rest,
                second,
                quoted,
            ));
            assert(unescaped_after(e, prev, quoted) == unescaped_after(e.drop_first(), '\\', quoted));
        } else {
            lemma_unescape_escape_after(s.drop_first(), quoted, tail, c);
            assert(e.drop_first() =~= rest);
            assert(e[0] == c);
            assert(unescaped_after(e, prev, quoted) == seq![c] + unescaped_after(rest, c, quoted));
        }
    }
}

/// Text without the leading and trailing white space (what `str::trim` does).
pub open spec fn trimmed(s: Seq<char>) -> Seq<char> {
    let start = first_non_white(s, 0);
    let end = last_non_white_end(s, s.len() as int);
    if start >= end {
        Seq::empty()
    } else {
        s.subrange(start, end)
    }
}

/// The index of the first non-white-space character at or after `i`, or the length.
pub open spec fn first_non_white(s: Seq<char>, i: int) -> int
    decreases s.len() - i,
{
    if i >= s.len() || i < 0 {
        s.len() as int
    } else if !is_white_space(s[i]) {
        i
    } else {
        first_non_white(s, i + 1)
    }
}

/// The end of the last non-white-space character before `j`, or 0.
pub open spec fn last_non_white_end(s: Seq<char>, j: int) -> int
    decreases j,
{
    if j <= 0 || j > s.len() {
        0
    } else if !is_white_space(s[j - 1]) {
        j
    } else {
        last_non_white_end(s, j - 1)
    }
}

/// Removes leading and trailing white space.
pub fn trim(s: &[char]) -> (r: Vec<char>)
    ensures
        r@ == trimmed(s@),
{
    let mut start: usize = 0;
    while start < s.len() && is_whitespace(s[start])
        invariant
            start <= s.len(),
            first_non_white(s@, 0) == first_non_white(s@, start as int),
        decreases s.len() - start,
    {
        start = start + 1;
    }
    let mut end: usize = s.len();
    while end > 0 && is_whitespace(s[end - 1])
        invariant
            end <= s.len(),
            last_non_white_end(s@, s@.len() as int) == last_non_white_end(s@, end as int),
        decreases end,
    {
        end = end - 1;
    }
    let mut r: Vec<char> = Vec::new();
    if start < end {
        let mut i = start;
        while i < end
            invariant
                start <= i <= end,
                end <= s.len(),
                r@ == s@.subrange(start as int, i as int),
            decreases end - i,
        {
            r.push(s[i]);
            i = i + 1;
            assert(r@ =~= s@.subrange(start as int, i as int));
        }
    }
    assert(r@ =~= trimmed(s@));
    r
}

/// The lines of a text, as `BufRead::lines` gives them: split at `\n`, without a final
/// empty line after a trailing `\n`, and each without a trailing `\r`.
pub open spec fn text_lines(s: Seq<char>) -> Seq<Seq<char>>
    decreases s.len(),
{
    if s.len() == 0 {
        Seq::empty()
    } else {
        let n = newline_index(s, 0);
        proof {
            lemma_newline_index_bounds(s, 0);
        }
        if n < s.len() {
            seq![without_cr(s.subrange(0, n))] + text_lines(s.subrange(n + 1, s.len() as int))
        } else {
            seq![without_cr(s)]
        }
    }
}

/// The index of the first `\n` at or after `i`, or the length.
pub open spec fn newline_index(s: Seq<char>, i: int) -> int
    decreases s.len() - i,
{
    if i >= s.len() || i < 0 {
        s.len() as int
    } else if s[i] == '\n' {
        i
    } else {
        newline_index(s, i + 1)
    }
}

/// A line without its trailing carriage return, if it has one.
pub open spec fn without_cr(l: Seq<char>) -> Seq<char> {
    if l.len() > 0 && l.last() == '\r' {
        l.drop_last()
    } else {
        l
    }
}

pub proof fn lemma_newline_index_bounds(s: Seq<char>, i: int)
    requires
        0 <= i <= s.len(),
    ensures
        i <= newline_index(s, i) <= s.len(),
        newline_index(s, i) < s.len() ==> s[newline_index(s, i)] == '\n',
        forall|j: int| i <= j < newline_index(s, i) ==> s[j] != '\n',
    decreases s.len() - i,
{
    if i < s.len() && s[i] != '\n' {
        lemma_newline_index_bounds(s, i + 1);
    }
}

proof fn lemma_newline_at(t: Seq<char>, m: int, k: int)
    requires
        0 <= k <= m <= t.len(),
        forall|j: int| 0 <= j < m ==> t[j] != '\n',
        m < t.len() ==> t[m] == '\n',
    ensures
        newline_index(t, k) == m,
    decreases m - k,
{
    if k < m {
        lemma_newline_at(t, m, k + 1);
    }
}

/// The lines of a text that ends with a line break, followed by more text, are its lines
/// and then those of the rest.
pub proof fn lemma_text_lines_append(s: Seq<char>, t: Seq<char>)
    requires
        s.len() > 0,
        s.last() == '\n',
    ensures
        text_lines(s + t) == text_lines(s) + text_lines(t),
    decreases s.len(),
{
    let st = s + t;
    lemma_newline_index_bounds(s, 0);
    let n = newline_index(s, 0);
    assert(n < s.len());
    lemma_newline_at(st, n, 0);
    assert(st.subrange(0, n) =~= s.subrange(0, n));
    let s2 = s.subrange(n + 1, s.len() as int);
    assert(st.subrange(n + 1, st.len() as int) =~= s2 + t);
    if s2.len() == 0 {
        assert(s2 + t =~= t);
        assert(text_lines(s) =~= seq![without_cr(s.subrange(0, n))]);
    } else {
        assert(s2.last() == '\n');
        lemma_text_lines_append(s2, t);
        assert(text_lines(st) =~= text_lines(s) + text_lines(t));
    }
}

/// A line without line breaks, ended by one, is the single line of its text.
pub proof fn lemma_text_lines_single(l: Seq<char>)
    requires
        forall|j: int| 0 <= j < l.len() ==> l[j] != '\n',
    ensures
        text_lines(l.push('\n')) == seq![without_cr(l)],
{
    let s = l.push('\n');
    assert(s[l.len() as int] == '\n');
    lemma_newline_at(s, l.len() as int, 0);
    assert(newline_index(s, 0) == l.len());
    assert(text_lines(Seq::<char>::empty()) =~= Seq::<Seq<char>>::empty());
    assert(s.subrange(0, l.len() as int) =~= l);
    assert(s.subrange(l.len() as int + 1, s.len() as int) =~= Seq::<char>::empty());
    assert(text_lines(s) =~= seq![without_cr(l)]);
}

/// Escaped text holds no line break.
pub proof fn lemma_escaped_no_newline(s: Seq<char>, quoted: bool)
    ensures
        forall|j: int| 0 <= j < escaped(s, quoted).len() ==> #[trigger] escaped(s, quoted)[j] != '\n',
    decreases s.len(),
{
    if s.len() > 0 {
        lemma_escaped_no_newline(s.drop_first(), quoted);
        let e = escaped(s, quoted);
        let h = escape_char(s[0], quoted);
        assert(e =~= h + escaped(s.drop_first(), quoted));
        assert forall|j: int| 0 <= j < e.len() implies #[trigger] e[j] != '\n' by {
            if j >= h.len() {
                assert(e[j] == escaped(s.drop_first(), quoted)[j - h.len()]);
            }
        }
    }
}

/// Splits a text into lines, as `BufRead::lines` does.
pub fn lines(s: &[char]) -> (r: Vec<Vec<char>>)
    ensures
        r@.map_values(|v: Vec<char>| v@) == text_lines(s@),
{
    let mut r: Vec<Vec<char>> = Vec::new();
    let mut start: usize = 0;
    let mut cur: Vec<char> = Vec::new();
    let mut i: usize = 0;
    assert(s@.subrange(0, s@.len() as int) =~= s@);
    assert(r@.map_values(|v: Vec<char>| v@) + text_lines(s@) =~= text_lines(s@));
    while i < s.len()
        invariant
            start <= i <= s.len(),
            cur@ == s@.subrange(start as int, i as int),
            forall|j: int| start <= j < i ==> s@[j] != '\n',
            r@.map_values(|v: Vec<char>| v@) + text_lines(s@.subrange(start as int, s@.len() as int))
                == text_lines(s@),
        decreases s.len() - i,
    {
        if s[i] == '\n' {
            let ghost t = s@.subrange(start as int, s@.len() as int);
            let ghost before = r@.map_values(|v: Vec<char>| v@);
            proof {
                lemma_newline_at(t, (i - start) as int, 0);
                assert(t.subrange(0, (i - start) as int) =~= cur@);
                assert(t.subrange((i - start + 1) as int, t.len() as int) =~= s@.subrange(
                    i + 1,
                    s@.len() as int,
                ));
                assert(text_lines(t) == seq![without_cr(cur@)] + text_lines(
                    s@.subrange(i + 1, s@.len() as int),
                ));
            }
            let ghost line_v = without_cr(cur@);
            let line = strip_cr(cur);
            r.push(line);
            cur = Vec::new();
            start = i + 1;
            assert(r@.map_values(|v: Vec<char>| v@) =~= before.push(line_v));
            assert(r@.map_values(|v: Vec<char>| v@) + text_lines(
                s@.subrange(start as int, s@.len() as int),
            ) =~= before + text_lines(t));
        } else {
            cur.push(s[i]);
        }
        i = i + 1;
        assert(cur@ =~= s@.subrange(start as int, i as int));
    }
    let ghost before = r@.map_values(|v: Vec<char>| v@);
    let ghost t = s@.subrange(start as int, s@.len() as int);
    if start < s.len() {
        proof {
            lemma_newline_at(t, t.len() as int, 0);
            assert(cur@ =~= t);
            assert(text_lines(t) == seq![without_cr(t)]);
        }
        let line = strip_cr(cur);
        r.push(line);
        assert(r@.map_values(|v: Vec<char>| v@) =~= before + text_lines(t));
    } else {
        assert(t =~= Seq::<char>::empty());
        assert(before + text_lines(t) =~= before);
    }
    r
}

fn strip_cr(mut l: Vec<char>) -> (r: Vec<char>)
    ensures
        r@ == without_cr(l@),
{
    if l.len() > 0 && l[l.len() - 1] == '\r' {
        l.pop();
    }
    l
}

} // verus!
