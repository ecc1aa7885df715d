//! What is worth saying aloud, and what is worth hearing.

use vstd::prelude::*;
use crate::phrases::{is_junk, junk_in};
use crate::text::{
    alphanumeric, ascii_lower, char_from, char_rfind, chars_of, drop_char, find, find_in,
    find_is_first, first_of, first_of_is_first, last_of, last_of_is_last, lower, occurs, occurs_at,
    string_of, trim, trim_end, trim_has_no_outer_space, trim_is_idempotent, trim_start, trimmed,
    white_space, without_char,
};

verus! {

// ---------------------------------------------------------------- cleaning a reply

/// `s` with its ASCII letters in lower case.
pub open spec fn folded(s: Seq<char>) -> Seq<char> {
    s.map_values(|c: char| ascii_lower(c))
}

/// `s` up to the first line that begins with `heading`, in any case of its ASCII letters.
pub open spec fn before_heading(s: Seq<char>, heading: Seq<char>) -> Option<Seq<char>> {
    match find(folded(s), heading) {
        Some(i) => Some(s.take(i)),
        None => None,
    }
}

/// `s` without a list of sources at its end. The headings are tried in this order, and the
/// first one that stands in the text cuts it.
pub open spec fn without_sources(s: Seq<char>) -> Seq<char> {
    match before_heading(s, "\nsources:"@) {
        Some(r) => r,
        None => match before_heading(s, "\nsource:"@) {
            Some(r) => r,
            None => match before_heading(s, "\nreferences:"@) {
                Some(r) => r,
                None => match before_heading(s, "\ncitations:"@) {
                    Some(r) => r,
                    None => s,
                },
            },
        },
    }
}

/// Where the first markdown link `[label](address)` of `s` has its opening bracket, the end
/// of its label and its closing parenthesis.
pub open spec fn first_link(s: Seq<char>) -> Option<(int, int, int)> {
    match find(s, "]("@) {
        Some(middle) => match (last_of(s.take(middle), '['), first_of(s.skip(middle), ')')) {
            (Some(start), Some(more)) => Some((start, middle, middle + more)),
            _ => None,
        },
        None => None,
    }
}

/// `s` with the label in place of each markdown link.
pub open spec fn without_links(s: Seq<char>) -> Seq<char>
    decreases s.len(),
{
    match first_link(s) {
        Some((start, middle, end)) => if 0 <= start < middle <= end < s.len() {
            without_links(s.take(start) + s.subrange(start + 1, middle) + s.skip(end + 1))
        } else {
            s
        },
        None => s,
    }
}

/// What of `text` can be spoken: no list of sources, no link addresses, no markdown marks.
pub open spec fn spoken(text: Seq<char>) -> Seq<char> {
    let plain = without_links(without_sources(trim(text)));
    trim(without_char(without_char(without_char(plain, '*'), '`'), '#'))
}

/// The positions of a link lie in the text, in order.
proof fn link_in_range(s: Seq<char>)
    ensures
        match first_link(s) {
            Some((start, middle, end)) => 0 <= start < middle <= end < s.len(),
            None => true,
        },
{
    find_is_first(s, "]("@);
    match find(s, "]("@) {
        Some(middle) => {
            last_of_is_last(s.take(middle), '[');
            first_of_is_first(s.skip(middle), ')');
        },
        None => {},
    }
}

/// The characters of `s` with the ASCII letters in lower case.
fn fold(s: &[char]) -> (r: Vec<char>)
    ensures
        r@ == folded(s@),
{
    let mut r: Vec<char> = Vec::new();
    let mut i: usize = 0;
    while i < s.len()
        invariant
            0 <= i <= s@.len(),
            r@ == folded(s@).take(i as int),
        decreases s@.len() - i,
    {
        let c: char = s[i];
        if 'A' <= c && c <= 'Z' {
            r.push((c as u8 + 32) as char);
        } else {
            r.push(c);
        }
        i += 1;
        assert(folded(s@).take(i as int) =~= folded(s@).take(i - 1).push(folded(s@)[i - 1]));
    }
    assert(folded(s@).take(i as int) =~= folded(s@));
    r
}

/// `s` with its ASCII letters in lower case.
pub fn fold_text(s: &str) -> (r: String)
    ensures
        r@ == folded(s@),
{
    let v: Vec<char> = chars_of(s);
    string_of(fold(v.as_slice()).as_slice())
}

/// Cuts `s` before `heading`.
fn cut_at(s: &str, heading: &str) -> (r: Option<String>)
    ensures
        match r {
            Some(t) => before_heading(s@, heading@) == Some(t@),
            None => before_heading(s@, heading@) is None,
        },
{
    let v: Vec<char> = chars_of(s);
    let low: Vec<char> = fold(v.as_slice());
    let h: Vec<char> = chars_of(heading);
    proof {
        find_is_first(folded(s@), heading@);
    }
    match find_in(low.as_slice(), h.as_slice()) {
        Some(i) => {
            assert(s@.take(i as int) == s@.subrange(0, i as int));
            Some(s.substring_char(0, i).to_owned())
        },
        None => None,
    }
}

/// Drops a list of sources at the end of `s`.
fn drop_sources(s: String) -> (r: String)
    ensures
        r@ == without_sources(s@),
{
    if let Some(r) = cut_at(s.as_str(), "\nsources:") {
        return r;
    }
    if let Some(r) = cut_at(s.as_str(), "\nsource:") {
        return r;
    }
    if let Some(r) = cut_at(s.as_str(), "\nreferences:") {
        return r;
    }
    if let Some(r) = cut_at(s.as_str(), "\ncitations:") {
        return r;
    }
    s
}

/// Replaces each markdown link of `s` by its label.
fn drop_links(s: String) -> (r: String)
    ensures
        r@ == without_links(s@),
{
    let mut cur: Vec<char> = chars_of(s.as_str());
    let mark: Vec<char> = chars_of("](");
    loop
        invariant
            mark@ == "]("@,
            without_links(cur@) == without_links(s@),
        decreases cur@.len(),
    {
        proof {
            link_in_range(cur@);
            find_is_first(cur@, "]("@);
        }
        let middle: usize = match find_in(cur.as_slice(), mark.as_slice()) {
            Some(i) => i,
            None => {
                return string_of(cur.as_slice());
            },
        };
        let before: Vec<char> = part(cur.as_slice(), 0, middle);
        assert(before@ == cur@.take(middle as int));
        let start: usize = match char_rfind(before.as_slice(), '[') {
            Some(i) => i,
            None => {
                return string_of(cur.as_slice());
            },
        };
        let end: usize = match char_from(cur.as_slice(), ')', middle) {
            Some(i) => i,
            None => {
                return string_of(cur.as_slice());
            },
        };
        assert(first_link(cur@) == Some((start as int, middle as int, end as int)));
        let len: usize = cur.len();
        let mut next: Vec<char> = part(cur.as_slice(), 0, start);
        let label: Vec<char> = part(cur.as_slice(), start + 1, middle);
        let after: Vec<char> = part(cur.as_slice(), end + 1, len);
        next.extend_from_slice(label.as_slice());
        next.extend_from_slice(after.as_slice());
        assert(next@ =~= cur@.take(start as int) + cur@.subrange(start + 1, middle as int)
            + cur@.skip(end + 1));
        cur = next;
    }
}

/// The characters of `s` from `from` up to `to`.
fn part(s: &[char], from: usize, to: usize) -> (r: Vec<char>)
    requires
        from <= to <= s@.len(),
    ensures
        r@ == s@.subrange(from as int, to as int),
{
    let mut r: Vec<char> = Vec::new();
    let mut i: usize = from;
    while i < to
        invariant
            from <= i <= to <= s@.len(),
            r@ == s@.subrange(from as int, i as int),
        decreases to - i,
    {
        r.push(s[i]);
        i += 1;
        assert(s@.subrange(from as int, i as int) =~= s@.subrange(from as int, i - 1).push(
            s@[i - 1],
        ));
    }
    r
}

/// Strips anything that should not be spoken aloud: a list of sources at the end, markdown
/// links and emphasis.
pub fn clean_for_speech(text: &str) -> (r: String)
    ensures
        r@ == spoken(text@),
{
    let s: String = drop_links(drop_sources(trimmed(text)));
    let s: String = drop_char(s.as_str(), '*');
    let s: String = drop_char(s.as_str(), '`');
    let s: String = drop_char(s.as_str(), '#');
    trimmed(s.as_str())
}

proof fn without_char_members(s: Seq<char>, c: char)
    ensures
        forall|i: int|
            0 <= i < without_char(s, c).len() ==> #[trigger] without_char(s, c)[i] != c
                && s.contains(without_char(s, c)[i]),
    decreases s.len(),
{
    if s.len() > 0 {
        without_char_members(s.drop_last(), c);
        let w = without_char(s.drop_last(), c);
        assert forall|i: int| 0 <= i < without_char(s, c).len() implies #[trigger] without_char(
            s,
            c,
        )[i] != c && s.contains(without_char(s, c)[i]) by {
            if i < w.len() {
                assert(w[i] != c && s.drop_last().contains(w[i]));
                let k = choose|k: int| 0 <= k < s.drop_last().len() && s.drop_last()[k] == w[i];
                assert(s[k] == w[i]);
            } else {
                assert(s[s.len() - 1] == s.last());
            }
        }
    }
}

proof fn trim_members(s: Seq<char>)
    ensures
        forall|i: int| 0 <= i < trim(s).len() ==> s.contains(#[trigger] trim(s)[i]),
{
    trim_start_members(s);
    trim_end_members(trim_start(s));
    assert forall|i: int| 0 <= i < trim(s).len() implies s.contains(#[trigger] trim(s)[i]) by {
        let m = trim_start(s);
        assert(m.contains(trim(s)[i]));
        let k = choose|k: int| 0 <= k < m.len() && m[k] == trim(s)[i];
        assert(s.contains(m[k]));
    }
}

proof fn trim_start_members(s: Seq<char>)
    ensures
        forall|i: int|
            0 <= i < trim_start(s).len() ==> s.contains(
                #[trigger] trim_start(s)[i],
            ),
    decreases s.len(),
{
    if s.len() > 0 && white_space(s.first()) {
        let d = s.drop_first();
        trim_start_members(d);
        assert forall|i: int| 0 <= i < trim_start(s).len() implies s.contains(
            #[trigger] trim_start(s)[i],
        ) by {
            assert(d.contains(trim_start(d)[i]));
            let k = choose|k: int| 0 <= k < d.len() && d[k] == trim_start(d)[i];
            assert(s[k + 1] == d[k]);
        }
    }
}

proof fn trim_end_members(s: Seq<char>)
    ensures
        forall|i: int|
            0 <= i < trim_end(s).len() ==> s.contains(
                #[trigger] trim_end(s)[i],
            ),
    decreases s.len(),
{
    if s.len() > 0 && white_space(s.last()) {
        let d = s.drop_last();
        trim_end_members(d);
        assert forall|i: int| 0 <= i < trim_end(s).len() implies s.contains(
            #[trigger] trim_end(s)[i],
        ) by {
            assert(d.contains(trim_end(d)[i]));
            let k = choose|k: int| 0 <= k < d.len() && d[k] == trim_end(d)[i];
            assert(s[k] == d[k]);
        }
    }
}

/// What is spoken holds none of the markdown marks and has no white space at its ends.
pub proof fn spoken_is_clean(text: Seq<char>)
    ensures
        forall|i: int|
            0 <= i < spoken(text).len() ==> #[trigger] spoken(text)[i] != '*' && spoken(text)[i]
                != '`' && spoken(text)[i] != '#',
        spoken(text).len() > 0 ==> !white_space(spoken(text).first()) && !white_space(
            spoken(text).last(),
        ),
{
    let plain = without_links(without_sources(trim(text)));
    let a = without_char(plain, '*');
    let b = without_char(a, '`');
    let c = without_char(b, '#');
    without_char_members(plain, '*');
    without_char_members(a, '`');
    without_char_members(b, '#');
    trim_members(c);
    trim_has_no_outer_space(c);
    assert forall|i: int| 0 <= i < spoken(text).len() implies #[trigger] spoken(text)[i] != '*'
        && spoken(text)[i] != '`' && spoken(text)[i] != '#' by {
        let x = trim(c)[i];
        assert(c.contains(x));
        let k = choose|k: int| 0 <= k < c.len() && c[k] == x;
        assert(c[k] != '#' && b.contains(c[k]));
        let m = choose|m: int| 0 <= m < b.len() && b[m] == x;
        assert(b[m] != '`' && a.contains(b[m]));
        let n = choose|n: int| 0 <= n < a.len() && a[n] == x;
        assert(a[n] != '*');
    }
}

/// Replacing the links of a text leaves no link in it.
pub proof fn no_links_are_left(s: Seq<char>)
    ensures
        first_link(without_links(s)) is None,
    decreases s.len(),
{
    link_in_range(s);
    match first_link(s) {
        Some((start, middle, end)) => {
            no_links_are_left(
                s.take(start) + s.subrange(start + 1, middle) + s.skip(end + 1),
            );
        },
        None => {},
    }
}

/// `a` is `b` with some characters taken out: what is left keeps its order.
pub open spec fn left_of(a: Seq<char>, b: Seq<char>) -> bool
    decreases b.len(),
{
    a.len() == 0 || (b.len() > 0 && (left_of(a, b.drop_last()) || (a.last() == b.last() && left_of(
        a.drop_last(),
        b.drop_last(),
    ))))
}

proof fn left_of_same(a: Seq<char>)
    ensures
        left_of(a, a),
    decreases a.len(),
{
    if a.len() > 0 {
        left_of_same(a.drop_last());
    }
}

proof fn left_of_left(a: Seq<char>, b: Seq<char>, c: Seq<char>)
    requires
        left_of(a, b),
        left_of(b, c),
    ensures
        left_of(a, c),
    decreases c.len(),
{
    if a.len() > 0 {
        let d = c.drop_last();
        if left_of(b, d) {
            left_of_left(a, b, d);
        } else if left_of(a, b.drop_last()) {
            left_of_left(a, b.drop_last(), d);
        } else {
            left_of_left(a.drop_last(), b.drop_last(), d);
        }
    }
}

proof fn left_of_parts(a: Seq<char>, b: Seq<char>, c: Seq<char>, d: Seq<char>)
    requires
        left_of(a, b),
        left_of(c, d),
    ensures
        left_of(a + c, b + d),
    decreases d.len(),
{
    if d.len() == 0 {
        assert(a + c =~= a);
        assert(b + d =~= b);
    } else {
        assert((b + d).drop_last() =~= b + d.drop_last());
        if c.len() == 0 || left_of(c, d.drop_last()) {
            left_of_parts(a, b, c, d.drop_last());
        } else {
            left_of_parts(a, b, c.drop_last(), d.drop_last());
            assert((a + c).drop_last() =~= a + c.drop_last());
        }
    }
}

proof fn left_of_range(s: Seq<char>, from: int, to: int)
    requires
        0 <= from <= to <= s.len(),
    ensures
        left_of(s.subrange(from, to), s),
{
    let e = Seq::<char>::empty();
    let m = s.subrange(from, to);
    left_of_same(m);
    left_of_parts(e, s.take(from), m, m);
    left_of_parts(e + m, s.take(from) + m, e, s.skip(to));
    assert(e + m + e =~= m);
    assert(s.take(from) + m + s.skip(to) =~= s);
}

proof fn left_of_trim(s: Seq<char>)
    ensures
        left_of(trim(s), s),
{
    left_of_trim_start(s);
    left_of_trim_end(trim_start(s));
    left_of_left(trim(s), trim_start(s), s);
}

proof fn left_of_trim_start(s: Seq<char>)
    ensures
        left_of(trim_start(s), s),
    decreases s.len(),
{
    if s.len() > 0 && white_space(s.first()) {
        left_of_trim_start(s.drop_first());
        left_of_range(s, 1, s.len() as int);
        assert(s.subrange(1, s.len() as int) =~= s.drop_first());
        left_of_left(trim_start(s), s.drop_first(), s);
    } else {
        left_of_same(s);
    }
}

proof fn left_of_trim_end(s: Seq<char>)
    ensures
        left_of(trim_end(s), s),
    decreases s.len(),
{
    if s.len() > 0 && white_space(s.last()) {
        left_of_trim_end(s.drop_last());
    } else {
        left_of_same(s);
    }
}

proof fn left_of_without_char(s: Seq<char>, c: char)
    ensures
        left_of(without_char(s, c), s),
    decreases s.len(),
{
    if s.len() > 0 {
        left_of_without_char(s.drop_last(), c);
        let w = without_char(s.drop_last(), c);
        assert(w.push(s.last()).drop_last() =~= w);
    }
}

proof fn left_of_without_links(s: Seq<char>)
    ensures
        left_of(without_links(s), s),
    decreases s.len(),
{
    link_in_range(s);
    match first_link(s) {
        Some((start, middle, end)) => {
            let head = s.take(start);
            let label = s.subrange(start + 1, middle);
            let tail = s.skip(end + 1);
            left_of_same(head);
            left_of_same(tail);
            left_of_range(s.subrange(start, end + 1), 1, middle - start);
            assert(s.subrange(start, end + 1).subrange(1, middle - start) =~= label);
            left_of_parts(head, head, label, s.subrange(start, end + 1));
            left_of_parts(head + label, head + s.subrange(start, end + 1), tail, tail);
            assert(head + s.subrange(start, end + 1) + tail =~= s);
            left_of_without_links(head + label + tail);
            left_of_left(without_links(s), head + label + tail, s);
        },
        None => {
            left_of_same(s);
        },
    }
}

proof fn left_of_without_sources(s: Seq<char>)
    ensures
        left_of(without_sources(s), s),
{
    left_of_same(s);
    left_of_heading(s, "\nsources:"@);
    left_of_heading(s, "\nsource:"@);
    left_of_heading(s, "\nreferences:"@);
    left_of_heading(s, "\ncitations:"@);
}

proof fn left_of_heading(s: Seq<char>, heading: Seq<char>)
    ensures
        before_heading(s, heading) matches Some(r) ==> left_of(r, s),
{
    find_is_first(folded(s), heading);
    match find(folded(s), heading) {
        Some(i) => {
            left_of_range(s, 0, i);
            assert(s.subrange(0, i) =~= s.take(i));
        },
        None => {},
    }
}

/// Cleaning only takes characters out: what is spoken stands in the reply, in the same order.
pub proof fn cleaning_only_removes(text: Seq<char>)
    ensures
        left_of(spoken(text), text),
        spoken(text).len() <= text.len(),
{
    let t = trim(text);
    let u = without_sources(t);
    let v = without_links(u);
    let a = without_char(v, '*');
    let b = without_char(a, '`');
    let c = without_char(b, '#');
    left_of_trim(text);
    left_of_without_sources(t);
    left_of_without_links(u);
    left_of_without_char(v, '*');
    left_of_without_char(a, '`');
    left_of_without_char(b, '#');
    left_of_trim(c);
    left_of_left(trim(c), c, b);
    left_of_left(trim(c), b, a);
    left_of_left(trim(c), a, v);
    left_of_left(trim(c), v, u);
    left_of_left(trim(c), u, t);
    left_of_left(trim(c), t, text);
    left_of_is_shorter(spoken(text), text);
}

proof fn left_of_is_shorter(a: Seq<char>, b: Seq<char>)
    requires
        left_of(a, b),
    ensures
        a.len() <= b.len(),
    decreases b.len(),
{
    if a.len() > 0 {
        if left_of(a, b.drop_last()) {
            left_of_is_shorter(a, b.drop_last());
        } else {
            left_of_is_shorter(a.drop_last(), b.drop_last());
        }
    }
}

// ---------------------------------------------------------------- judging a transcript

/// A character of a script that is neither Latin nor Cyrillic: Hebrew, Arabic, Devanagari,
/// Thai, Hangul, Japanese, Chinese, or a half or full width form.
pub open spec fn foreign(c: char) -> bool {
    let u = c as u32;
    ||| 0x0590 <= u <= 0x05FF
    ||| 0x0600 <= u <= 0x06FF
    ||| 0x0900 <= u <= 0x097F
    ||| 0x0E00 <= u <= 0x0E7F
    ||| 0x1100 <= u <= 0x11FF
    ||| 0x3040 <= u <= 0x30FF
    ||| 0x3400 <= u <= 0x4DBF
    ||| 0x4E00 <= u <= 0x9FFF
    ||| 0xAC00 <= u <= 0xD7AF
    ||| 0xFF00 <= u <= 0xFFEF
}

/// Some character of the text is foreign.
pub open spec fn holds_foreign(s: Seq<char>) -> bool {
    exists|i: int| 0 <= i < s.len() && foreign(#[trigger] s[i])
}

/// Some character of the text is a letter or a digit.
pub open spec fn holds_alphanumeric(s: Seq<char>) -> bool {
    exists|i: int| 0 <= i < s.len() && alphanumeric(#[trigger] s[i])
}

/// True if the text contains characters of a script that nobody dictates here.
pub fn has_foreign_script(s: &str) -> (b: bool)
    ensures
        b == holds_foreign(s@),
{
    for c in it: s.chars()
        invariant
            it.seq() == s@,
            forall|i: int| 0 <= i < it.index() ==> !foreign(#[trigger] s@[i]),
    {
        assert(c == s@[it.index() as int]);
        let u: u32 = c as u32;
        if (0x0590 <= u && u <= 0x05FF) || (0x0600 <= u && u <= 0x06FF) || (0x0900 <= u && u
            <= 0x097F) || (0x0E00 <= u && u <= 0x0E7F) || (0x1100 <= u && u <= 0x11FF) || (0x3040
            <= u && u <= 0x30FF) || (0x3400 <= u && u <= 0x4DBF) || (0x4E00 <= u && u <= 0x9FFF)
            || (0xAC00 <= u && u <= 0xD7AF) || (0xFF00 <= u && u <= 0xFFEF) {
            return true;
        }
    }
    false
}

/// True if some character of the text is a letter or a digit.
pub fn has_alphanumeric(s: &str) -> (b: bool)
    ensures
        b == holds_alphanumeric(s@),
{
    for c in it: s.chars()
        invariant
            it.seq() == s@,
            forall|i: int| 0 <= i < it.index() ==> !alphanumeric(#[trigger] s@[i]),
    {
        assert(c == s@[it.index() as int]);
        if c.is_alphanumeric() {
            return true;
        }
    }
    false
}

/// The text `t` is worth keeping: it holds a letter or a digit, nothing foreign, and `low`,
/// its lowered form, holds no phrase that recognition invents on silence.
pub open spec fn worth_keeping(t: Seq<char>, low: Seq<char>) -> bool {
    holds_alphanumeric(t) && !holds_foreign(t) && !junk_in(low)
}

/// A transcript that somebody spoke, as against silence or noise.
pub open spec fn meaningful(t: Seq<char>) -> bool {
    worth_keeping(trim(t), lower(trim(t)))
}

/// `is_meaningful_transcript` on a trimmed text and its lowered form.
pub fn keeps(t: &str, low: &str) -> (b: bool)
    ensures
        b == worth_keeping(t@, low@),
{
    has_alphanumeric(t) && !has_foreign_script(t) && !is_junk(low)
}

/// False for empty and punctuation-only transcripts, for foreign scripts and for the stock
/// phrases that speech recognition invents on near-silence.
pub fn is_meaningful_transcript(t: &str) -> (b: bool)
    ensures
        b == meaningful(t@),
{
    let t: String = trimmed(t);
    let low: String = t.as_str().to_lowercase();
    keeps(t.as_str(), low.as_str())
}

/// A transcript with nothing but white space is not meaningful.
pub proof fn silence_is_not_meaningful(t: Seq<char>)
    requires
        trim(t).len() == 0,
    ensures
        !meaningful(t),
{
}

// ---------------------------------------------------------------- laws

/// A markdown mark, which is never spoken.
pub open spec fn mark(c: char) -> bool {
    c == '*' || c == '`' || c == '#'
}

proof fn without_char_is_filter(s: Seq<char>, c: char)
    ensures
        without_char(s, c) == s.filter(|x: char| x != c),
    decreases s.len(),
{
    reveal(Seq::filter);
    if s.len() > 0 {
        without_char_is_filter(s.drop_last(), c);
    }
}

proof fn filters_compose(
    s: Seq<char>,
    f: spec_fn(char) -> bool,
    g: spec_fn(char) -> bool,
    both: spec_fn(char) -> bool,
)
    requires
        forall|x: char| #[trigger] both(x) == (f(x) && g(x)),
    ensures
        s.filter(f).filter(g) == s.filter(both),
    decreases s.len(),
{
    reveal(Seq::filter);
    if s.len() > 0 {
        filters_compose(s.drop_last(), f, g, both);
        assert(both(s.last()) == (f(s.last()) && g(s.last())));
        if f(s.last()) {
            let a = s.drop_last().filter(f);
            assert(a.push(s.last()).drop_last() =~= a);
        }
    }
}

/// A reply without links and without a list of sources is spoken as it is, but for the markdown
/// marks and the white space at its ends: every other character is spoken, in its place.
pub proof fn all_but_marks_is_spoken(text: Seq<char>)
    requires
        !occurs(trim(text), "]("@),
        !occurs(folded(trim(text)), "\nsources:"@),
        !occurs(folded(trim(text)), "\nsource:"@),
        !occurs(folded(trim(text)), "\nreferences:"@),
        !occurs(folded(trim(text)), "\ncitations:"@),
    ensures
        spoken(text) == trim(trim(text).filter(|c: char| !mark(c))),
{
    let t = trim(text);
    find_is_first(t, "]("@);
    find_is_first(folded(t), "\nsources:"@);
    find_is_first(folded(t), "\nsource:"@);
    find_is_first(folded(t), "\nreferences:"@);
    find_is_first(folded(t), "\ncitations:"@);
    assert(without_links(without_sources(t)) == t);
    let f = |c: char| c != '*';
    let g = |c: char| c != '`';
    let h = |c: char| c != '#';
    let fg = |c: char| c != '*' && c != '`';
    let all = |c: char| !mark(c);
    without_char_is_filter(t, '*');
    without_char_is_filter(t.filter(f), '`');
    filters_compose(t, f, g, fg);
    without_char_is_filter(t.filter(fg), '#');
    filters_compose(t, fg, h, all);
}

/// A plain reply, without links, sources and marks, is spoken whole.
pub proof fn plain_reply_is_spoken_whole(text: Seq<char>)
    requires
        !occurs(trim(text), "]("@),
        !occurs(folded(trim(text)), "\nsources:"@),
        !occurs(folded(trim(text)), "\nsource:"@),
        !occurs(folded(trim(text)), "\nreferences:"@),
        !occurs(folded(trim(text)), "\ncitations:"@),
        forall|i: int| 0 <= i < trim(text).len() ==> !mark(#[trigger] trim(text)[i]),
    ensures
        spoken(text) == trim(text),
{
    all_but_marks_is_spoken(text);
    let t = trim(text);
    filter_keeps_all(t, |c: char| !mark(c));
    trim_has_no_outer_space(text);
    trim_is_idempotent(text);
}

proof fn filter_keeps_all(s: Seq<char>, f: spec_fn(char) -> bool)
    requires
        forall|i: int| 0 <= i < s.len() ==> f(#[trigger] s[i]),
    ensures
        s.filter(f) == s,
    decreases s.len(),
{
    reveal(Seq::filter);
    if s.len() > 0 {
        let d = s.drop_last();
        assert forall|i: int| 0 <= i < d.len() implies f(#[trigger] d[i]) by {
            assert(f(s[i]));
        }
        filter_keeps_all(d, f);
        assert(f(s[s.len() - 1]));
        assert(d.push(s.last()) =~= s);
    }
}

/// A markdown link is spoken as its label: the address is not, and what stands around the link
/// stays.
pub proof fn link_becomes_its_label(
    a: Seq<char>,
    label: Seq<char>,
    address: Seq<char>,
    b: Seq<char>,
)
    requires
        !a.contains(']'),
        !label.contains('['),
        !label.contains(']'),
        !address.contains(')'),
    ensures
        without_links(a + seq!['['] + label + seq![']', '('] + address + seq![')'] + b)
            == without_links(a + label + b),
{
    let s = a + seq!['['] + label + seq![']', '('] + address + seq![')'] + b;
    let start = a.len() as int;
    let middle = start + 1 + label.len();
    let end = middle + 2 + address.len();
    assert forall|j: int| 0 <= j < middle implies #[trigger] s[j] != ']' by {
        if j < start {
            assert(s[j] == a[j]);
        } else if j > start {
            assert(s[j] == label[j - start - 1]);
        }
    }
    assert forall|j: int| start < j < middle implies #[trigger] s[j] != '[' by {
        assert(s[j] == label[j - start - 1]);
    }
    assert forall|j: int| middle <= j < end implies #[trigger] s[j] != ')' by {
        if j >= middle + 2 {
            assert(s[j] == address[j - middle - 2]);
        }
    }
    link_stands_at(s, start, middle, end);
    assert(s.take(start) + s.subrange(start + 1, middle) + s.skip(end + 1) =~= a + label + b);
}

proof fn link_stands_at(s: Seq<char>, start: int, middle: int, end: int)
    requires
        0 <= start < middle,
        middle + 1 < end < s.len(),
        s[start] == '[' && s[middle] == ']' && s[middle + 1] == '(' && s[end] == ')',
        forall|j: int| 0 <= j < middle ==> #[trigger] s[j] != ']',
        forall|j: int| start < j < middle ==> #[trigger] s[j] != '[',
        forall|j: int| middle <= j < end ==> #[trigger] s[j] != ')',
    ensures
        first_link(s) == Some((start, middle, end)),
{
    reveal_strlit("](");
    assert(s.subrange(middle, middle + 2) =~= "]("@);
    assert(occurs_at(s, "]("@, middle));
    assert forall|j: int| 0 <= j < middle implies !occurs_at(s, "]("@, j) by {
        if occurs_at(s, "]("@, j) {
            assert(s.subrange(j, j + 2)[0] == s[j]);
        }
    }
    find_is_first(s, "]("@);
    assert(find(s, "]("@) == Some(middle));
    let head = s.take(middle);
    last_of_is_last(head, '[');
    assert(head[start] == '[');
    assert(last_of(head, '[') == Some(start));
    let tail = s.skip(middle);
    first_of_is_first(tail, ')');
    assert(tail[end - middle] == ')');
    assert forall|j: int| 0 <= j < end - middle implies tail[j] != ')' by {
        assert(tail[j] == s[middle + j]);
    }
    assert(first_of(tail, ')') == Some(end - middle));
}

/// A list of sources is cut off where its heading begins, and everything before it stays. The
/// heading "Sources" comes before "Source", "References" and "Citations".
pub proof fn sources_are_cut_off(s: Seq<char>)
    ensures
        ({
            let r = without_sources(s);
            let f = folded(s);
            let cut = |h: Seq<char>|
                r.len() <= s.len() && occurs_at(f, h, r.len() as int) && forall|j: int|
                    0 <= j < r.len() ==> !occurs_at(f, h, j);
            &&& r.len() <= s.len() && r == s.take(r.len() as int)
            &&& occurs(f, "\nsources:"@) ==> cut("\nsources:"@)
            &&& !occurs(f, "\nsources:"@) && occurs(f, "\nsource:"@) ==> cut("\nsource:"@)
            &&& !occurs(f, "\nsources:"@) && !occurs(f, "\nsource:"@) && occurs(
                f,
                "\nreferences:"@,
            ) ==> cut("\nreferences:"@)
            &&& !occurs(f, "\nsources:"@) && !occurs(f, "\nsource:"@) && !occurs(
                f,
                "\nreferences:"@,
            ) && occurs(f, "\ncitations:"@) ==> cut("\ncitations:"@)
            &&& !occurs(f, "\nsources:"@) && !occurs(f, "\nsource:"@) && !occurs(
                f,
                "\nreferences:"@,
            ) && !occurs(f, "\ncitations:"@) ==> r == s
        }),
{
    find_is_first(folded(s), "\nsources:"@);
    find_is_first(folded(s), "\nsource:"@);
    find_is_first(folded(s), "\nreferences:"@);
    find_is_first(folded(s), "\ncitations:"@);
    assert(s.take(s.len() as int) =~= s);
}

/// Russian and English letters, digits and ASCII punctuation are never foreign; the letters of
/// these scripts always are.
pub proof fn these_scripts_are_foreign(c: char)
    ensures
        (c as u32) < 0x0590 ==> !foreign(c),
        '\u{5d0}' <= c <= '\u{5ea}' ==> foreign(c),
        '\u{620}' <= c <= '\u{64a}' ==> foreign(c),
        '\u{904}' <= c <= '\u{939}' ==> foreign(c),
        '\u{e01}' <= c <= '\u{e3a}' ==> foreign(c),
        '\u{1100}' <= c <= '\u{11ff}' ==> foreign(c),
        '\u{3041}' <= c <= '\u{30ff}' ==> foreign(c),
        '\u{3400}' <= c <= '\u{4dbf}' ==> foreign(c),
        '\u{4e00}' <= c <= '\u{9fff}' ==> foreign(c),
        '\u{ac00}' <= c <= '\u{d7a3}' ==> foreign(c),
        '\u{ff01}' <= c <= '\u{ffef}' ==> foreign(c),
        0x1100 <= c as u32 && foreign(c) ==> c <= '\u{11ff}' || '\u{3040}' <= c <= '\u{9fff}'
            || '\u{ac00}' <= c <= '\u{d7af}' || '\u{ff00}' <= c <= '\u{ffef}',
        '\u{2010}' <= c <= '\u{203a}' ==> !foreign(c),
{
}

/// A phrase is kept wherever it holds a letter or a digit, no character of a foreign script and
/// none of the phrases that recognition invents, and is dropped everywhere else. White space
/// around it makes no difference.
pub proof fn speech_is_kept(t: Seq<char>, i: int)
    ensures
        0 <= i < trim(t).len() && alphanumeric(trim(t)[i]) && (forall|k: int|
            0 <= k < trim(t).len() ==> !foreign(#[trigger] trim(t)[k])) && !junk_in(lower(trim(t)))
            ==> meaningful(t),
        0 <= i < trim(t).len() && foreign(trim(t)[i]) ==> !meaningful(t),
        junk_in(lower(trim(t))) ==> !meaningful(t),
        (forall|k: int| 0 <= k < trim(t).len() ==> !alphanumeric(#[trigger] trim(t)[k]))
            ==> !meaningful(t),
        meaningful(trim(t)) == meaningful(t),
{
    trim_is_idempotent(t);
}

/// Folding lowers the ASCII letters and leaves every other character as it is.
pub proof fn folding_lowers_ascii_letters(s: Seq<char>, i: int)
    requires
        0 <= i < s.len(),
    ensures
        folded(s).len() == s.len(),
        'A' <= s[i] <= 'Z' ==> folded(s)[i] as int == s[i] as int + 32,
        !('A' <= s[i] <= 'Z') ==> folded(s)[i] == s[i],
{
}

} // verus!
