//! Text as a sequence of characters: searching, trimming, splitting, joining and
//! decimal numbers.

use vstd::prelude::*;

verus! {

// ---------------------------------------------------------------- trusted std items

/// `String::push` appends one character to the end of the string.
pub assume_specification[ String::push ](s: &mut String, c: char)
    ensures
        final(s)@ == old(s)@.push(c),
;

/// The Unicode property `White_Space`.
pub open spec fn white_space(c: char) -> bool {
    ||| '\u{9}' <= c && c <= '\u{d}'
    ||| c == '\u{20}'
    ||| c == '\u{85}'
    ||| c == '\u{a0}'
    ||| c == '\u{1680}'
    ||| '\u{2000}' <= c && c <= '\u{200a}'
    ||| c == '\u{2028}'
    ||| c == '\u{2029}'
    ||| c == '\u{202f}'
    ||| c == '\u{205f}'
    ||| c == '\u{3000}'
}

/// `char::is_whitespace` tells whether the character has the property `White_Space`.
pub assume_specification[ char::is_whitespace ](c: char) -> (b: bool)
    ensures
        b == white_space(c),
;

/// What `char::is_alphanumeric` answers: whether Unicode calls the character
/// alphabetic or numeric.
pub uninterp spec fn alphanumeric(c: char) -> bool;

/// An ASCII letter or an ASCII digit.
pub open spec fn ascii_alphanumeric(c: char) -> bool {
    ||| 'a' <= c && c <= 'z'
    ||| 'A' <= c && c <= 'Z'
    ||| '0' <= c && c <= '9'
}

/// `char::is_alphanumeric` depends on the character alone. Among the ASCII characters
/// exactly the letters and the digits are alphanumeric; the Russian letters are, too.
pub assume_specification[ char::is_alphanumeric ](c: char) -> (b: bool)
    ensures
        b == alphanumeric(c),
        c < '\u{80}' ==> b == ascii_alphanumeric(c),
        '\u{400}' <= c <= '\u{45f}' ==> b,
;

/// What `str::to_lowercase` makes of a text.
pub uninterp spec fn lower(s: Seq<char>) -> Seq<char>;

/// The lowercase form of an ASCII letter; every other character stays as it is.
pub open spec fn ascii_lower(c: char) -> char {
    if 'A' <= c && c <= 'Z' {
        (c as u32 + 32) as char
    } else {
        c
    }
}

/// An ASCII character or a basic Cyrillic letter.
pub open spec fn plain(c: char) -> bool {
    c < '\u{80}' || '\u{400}' <= c <= '\u{45f}'
}

/// A plain character that is no capital letter.
pub open spec fn plain_small(c: char) -> bool {
    plain(c) && !('A' <= c <= 'Z') && !('\u{400}' <= c <= '\u{42f}')
}

/// The lowercase form of a plain character.
pub open spec fn plain_lower(c: char) -> char {
    if '\u{400}' <= c <= '\u{40f}' {
        (c as u32 + 80) as char
    } else if '\u{410}' <= c <= '\u{42f}' {
        (c as u32 + 32) as char
    } else {
        ascii_lower(c)
    }
}

/// The character alone is left as it is by `str::to_lowercase`.
pub open spec fn settled(c: char) -> bool {
    lower(seq![c]) == seq![c]
}

/// `str::to_lowercase` depends on the text alone. A text of ASCII characters and basic
/// Cyrillic letters is lowercased letter by letter. The lowercase form of a character has no
/// further lowercase form; a text of characters without one stays as it is.
pub assume_specification[ str::to_lowercase ](s: &str) -> (r: String)
    ensures
        r@ == lower(s@),
        (forall|i: int| 0 <= i < s@.len() ==> plain(#[trigger] s@[i])) ==> r@ == s@.map_values(
            |c: char| plain_lower(c),
        ),
        forall|i: int| 0 <= i < r@.len() ==> settled(#[trigger] r@[i]),
        (forall|i: int|
            0 <= i < s@.len() ==> plain_small(#[trigger] s@[i]) || settled(s@[i])) ==> r@ == s@,
;

// ---------------------------------------------------------------- characters and strings

/// The characters of `s`, in order.
pub fn chars_of(s: &str) -> (v: Vec<char>)
    ensures
        v@ == s@,
{
    let mut v: Vec<char> = Vec::new();
    for c in it: s.chars()
        invariant
            it.seq() == s@,
            v@ == s@.take(it.index() as int),
    {
        v.push(c);
    }
    assert(s@.take(s@.len() as int) == s@);
    v
}

/// The string made of the characters `v`.
pub fn string_of(v: &[char]) -> (s: String)
    ensures
        s@ == v@,
{
    let mut s: String = String::new();
    let mut i: usize = 0;
    while i < v.len()
        invariant
            0 <= i <= v@.len(),
            s@ == v@.take(i as int),
        decreases v@.len() - i,
    {
        s.push(v[i]);
        i += 1;
        assert(v@.take(i as int) == v@.take(i - 1).push(v@[i - 1]));
    }
    assert(v@.take(v@.len() as int) == v@);
    s
}

/// True when two texts have the same characters.
pub fn same(a: &str, b: &str) -> (r: bool)
    ensures
        r == (a@ == b@),
{
    let x: Vec<char> = chars_of(a);
    let y: Vec<char> = chars_of(b);
    if x.len() != y.len() {
        return false;
    }
    let mut i: usize = 0;
    while i < x.len()
        invariant
            0 <= i <= x@.len(),
            x@.len() == y@.len(),
            x@.take(i as int) == y@.take(i as int),
            x@ == a@,
            y@ == b@,
        decreases x@.len() - i,
    {
        if x[i] != y[i] {
            assert(a@[i as int] != b@[i as int]);
            return false;
        }
        i += 1;
        assert(x@.take(i as int) == x@.take(i - 1).push(x@[i - 1]));
        assert(y@.take(i as int) == y@.take(i - 1).push(y@[i - 1]));
    }
    assert(x@.take(i as int) == x@);
    assert(y@.take(i as int) == y@);
    true
}

// ---------------------------------------------------------------- searching

/// `w` stands in `t` at position `i`.
pub open spec fn occurs_at<T>(t: Seq<T>, w: Seq<T>, i: int) -> bool {
    0 <= i && i + w.len() <= t.len() && t.subrange(i, i + w.len()) == w
}

/// `w` stands somewhere in `t`.
pub open spec fn occurs<T>(t: Seq<T>, w: Seq<T>) -> bool {
    exists|i: int| occurs_at(t, w, i)
}

/// The first position from `from` on at which `w` stands in `t`.
pub open spec fn find_from<T>(t: Seq<T>, w: Seq<T>, from: int) -> Option<int>
    decreases t.len() + 1 - from,
{
    if from < 0 || from + w.len() > t.len() {
        None
    } else if t.subrange(from, from + w.len()) == w {
        Some(from)
    } else {
        find_from(t, w, from + 1)
    }
}

/// The first position at which `w` stands in `t`.
pub open spec fn find<T>(t: Seq<T>, w: Seq<T>) -> Option<int> {
    find_from(t, w, 0)
}

/// `find` gives the least position at which the searched sequence stands, and gives
/// none exactly when it stands nowhere.
pub proof fn find_is_first<T>(t: Seq<T>, w: Seq<T>)
    ensures
        find(t, w) is Some <==> occurs(t, w),
        find(t, w) matches Some(i) ==> occurs_at(t, w, i) && forall|j: int|
            0 <= j < i ==> !occurs_at(t, w, j),
{
    find_from_is_first(t, w, 0);
    if occurs(t, w) {
        let i = choose|i: int| occurs_at(t, w, i);
        assert(occurs_at(t, w, i));
    }
}

proof fn find_from_is_first<T>(t: Seq<T>, w: Seq<T>, from: int)
    requires
        0 <= from,
    ensures
        match find_from(t, w, from) {
            Some(i) => from <= i && occurs_at(t, w, i) && forall|j: int|
                from <= j < i ==> !occurs_at(t, w, j),
            None => forall|j: int| from <= j ==> !occurs_at(t, w, j),
        },
    decreases t.len() + 1 - from,
{
    if from + w.len() <= t.len() && t.subrange(from, from + w.len()) != w {
        find_from_is_first(t, w, from + 1);
    }
}

/// True when `w` stands in `t` at `at`.
fn stands_at(t: &[char], w: &[char], at: usize) -> (r: bool)
    requires
        at + w@.len() <= t@.len(),
    ensures
        r == (t@.subrange(at as int, at + w@.len()) == w@),
{
    let n: usize = t.len();
    let mut k: usize = 0;
    while k < w.len()
        invariant
            0 <= k <= w@.len(),
            at + w@.len() <= t@.len(),
            n == t@.len(),
            t@.subrange(at as int, at + k) == w@.take(k as int),
        decreases w@.len() - k,
    {
        if t[at + k] != w[k] {
            assert(t@.subrange(at as int, at + w@.len())[k as int] != w@[k as int]);
            return false;
        }
        k += 1;
        assert(t@.subrange(at as int, at + k) == t@.subrange(at as int, at + k - 1).push(
            t@[at + k - 1],
        ));
        assert(w@.take(k as int) == w@.take(k - 1).push(w@[k - 1]));
    }
    assert(w@.take(k as int) == w@);
    true
}

/// The first position at which `w` stands in `t`.
pub fn find_in(t: &[char], w: &[char]) -> (r: Option<usize>)
    ensures
        match r {
            Some(i) => find(t@, w@) == Some(i as int),
            None => find(t@, w@) is None,
        },
{
    if w.len() > t.len() {
        return None;
    }
    let last: usize = t.len() - w.len();
    let mut i: usize = 0;
    while i <= last
        invariant
            0 <= i <= last + 1,
            last == t@.len() - w@.len(),
            find(t@, w@) == find_from(t@, w@, i as int),
        decreases last + 1 - i,
    {
        if stands_at(t, w, i) {
            return Some(i);
        }
        if i == last {
            assert(find_from(t@, w@, i + 1) is None);
            return None;
        }
        i += 1;
    }
    None
}

/// True when `w` stands somewhere in `t`.
pub fn has(t: &str, w: &str) -> (r: bool)
    ensures
        r == occurs(t@, w@),
{
    let tc: Vec<char> = chars_of(t);
    let wc: Vec<char> = chars_of(w);
    proof {
        find_is_first(t@, w@);
    }
    find_in(tc.as_slice(), wc.as_slice()).is_some()
}

/// The first position of `c` in `s`.
pub open spec fn first_of(s: Seq<char>, c: char) -> Option<int> {
    find(s, seq![c])
}

/// The last position of `c` in `s`.
pub open spec fn last_of(s: Seq<char>, c: char) -> Option<int>
    decreases s.len(),
{
    if s.len() == 0 {
        None
    } else if s.last() == c {
        Some(s.len() - 1)
    } else {
        last_of(s.drop_last(), c)
    }
}

/// `last_of` gives the greatest position of the character.
pub proof fn last_of_is_last(s: Seq<char>, c: char)
    ensures
        match last_of(s, c) {
            Some(i) => 0 <= i < s.len() && s[i] == c && forall|j: int|
                i < j < s.len() ==> s[j] != c,
            None => forall|j: int| 0 <= j < s.len() ==> s[j] != c,
        },
    decreases s.len(),
{
    if s.len() > 0 && s.last() != c {
        last_of_is_last(s.drop_last(), c);
        assert forall|j: int| 0 <= j < s.len() - 1 implies s.drop_last()[j] == s[j] by {}
    }
}

/// `first_of` gives the least position of the character.
pub proof fn first_of_is_first(s: Seq<char>, c: char)
    ensures
        match first_of(s, c) {
            Some(i) => 0 <= i < s.len() && s[i] == c && forall|j: int| 0 <= j < i ==> s[j] != c,
            None => forall|j: int| 0 <= j < s.len() ==> s[j] != c,
        },
{
    find_is_first(s, seq![c]);
    assert forall|j: int| 0 <= j < s.len() implies (occurs_at(s, seq![c], j) <==> s[j] == c) by {
        assert(s.subrange(j, j + 1)[0] == s[j]);
        if s[j] == c {
            assert(s.subrange(j, j + 1) =~= seq![c]);
        }
    }
    match first_of(s, c) {
        Some(i) => {
            assert(occurs_at(s, seq![c], i));
        },
        None => {
            assert forall|j: int| 0 <= j < s.len() implies s[j] != c by {
                assert(!occurs_at(s, seq![c], j));
            }
        },
    }
}

/// The first position of `c` in `s` that is at least `from`.
pub fn char_from(s: &[char], c: char, from: usize) -> (r: Option<usize>)
    requires
        from <= s@.len(),
    ensures
        match r {
            Some(i) => from <= i < s@.len() && first_of(s@.skip(from as int), c) == Some(i - from),
            None => first_of(s@.skip(from as int), c) is None,
        },
{
    let ghost rest = s@.skip(from as int);
    proof {
        first_of_is_first(rest, c);
    }
    let mut i: usize = from;
    while i < s.len()
        invariant
            from <= i <= s@.len(),
            rest == s@.skip(from as int),
            forall|j: int| 0 <= j < i - from ==> rest[j] != c,
            match first_of(rest, c) {
                Some(i) => 0 <= i < rest.len() && rest[i] == c && forall|j: int|
                    0 <= j < i ==> rest[j] != c,
                None => forall|j: int| 0 <= j < rest.len() ==> rest[j] != c,
            },
        decreases s@.len() - i,
    {
        if s[i] == c {
            assert(rest[i - from] == c);
            return Some(i);
        }
        i += 1;
    }
    None
}

/// The last position of `c` in `s`.
pub fn char_rfind(s: &[char], c: char) -> (r: Option<usize>)
    ensures
        match r {
            Some(i) => last_of(s@, c) == Some(i as int),
            None => last_of(s@, c) is None,
        },
{
    let mut i: usize = s.len();
    assert(s@.take(i as int) == s@);
    while i > 0
        invariant
            0 <= i <= s@.len(),
            last_of(s@, c) == last_of(s@.take(i as int), c),
        decreases i,
    {
        i -= 1;
        assert(s@.take(i + 1).drop_last() == s@.take(i as int));
        if s[i] == c {
            return Some(i);
        }
    }
    None
}

/// True when `t` begins with `w`.
pub fn begins_with(t: &str, w: &str) -> (r: bool)
    ensures
        r == occurs_at(t@, w@, 0),
{
    let tc: Vec<char> = chars_of(t);
    let wc: Vec<char> = chars_of(w);
    wc.len() <= tc.len() && stands_at(tc.as_slice(), wc.as_slice(), 0)
}

/// True when `t` ends with `w`.
pub fn ends_with(t: &str, w: &str) -> (r: bool)
    ensures
        r == occurs_at(t@, w@, t@.len() - w@.len()),
{
    let tc: Vec<char> = chars_of(t);
    let wc: Vec<char> = chars_of(w);
    wc.len() <= tc.len() && stands_at(tc.as_slice(), wc.as_slice(), tc.len() - wc.len())
}

// ---------------------------------------------------------------- trimming

/// `s` without the white space at its start.
pub open spec fn trim_start(s: Seq<char>) -> Seq<char>
    decreases s.len(),
{
    if s.len() > 0 && white_space(s.first()) {
        trim_start(s.drop_first())
    } else {
        s
    }
}

/// `s` without the white space at its end.
pub open spec fn trim_end(s: Seq<char>) -> Seq<char>
    decreases s.len(),
{
    if s.len() > 0 && white_space(s.last()) {
        trim_end(s.drop_last())
    } else {
        s
    }
}

/// `s` without the white space at its two ends.
pub open spec fn trim(s: Seq<char>) -> Seq<char> {
    trim_end(trim_start(s))
}

/// `s` without the characters at its end that are not alphanumeric.
pub open spec fn strip_tail(s: Seq<char>) -> Seq<char>
    decreases s.len(),
{
    if s.len() > 0 && !alphanumeric(s.last()) {
        strip_tail(s.drop_last())
    } else {
        s
    }
}

/// How many characters remain of `s` when the white space at its end is cut off.
fn trimmed_end(s: &[char], from: usize) -> (n: usize)
    requires
        from <= s@.len(),
    ensures
        from <= n <= s@.len(),
        trim_end(s@.skip(from as int)) == s@.subrange(from as int, n as int),
{
    let mut n: usize = s.len();
    assert(s@.skip(from as int) == s@.subrange(from as int, n as int));
    while n > from && s[n - 1].is_whitespace()
        invariant
            from <= n <= s@.len(),
            trim_end(s@.skip(from as int)) == trim_end(s@.subrange(from as int, n as int)),
        decreases n,
    {
        n -= 1;
        assert(s@.subrange(from as int, n + 1).drop_last() == s@.subrange(from as int, n as int));
    }
    n
}

/// Where the first character of `s` stands that is not white space.
fn trimmed_start(s: &[char]) -> (n: usize)
    ensures
        n <= s@.len(),
        trim_start(s@) == s@.skip(n as int),
{
    let mut n: usize = 0;
    assert(s@.skip(0) == s@);
    while n < s.len() && s[n].is_whitespace()
        invariant
            0 <= n <= s@.len(),
            trim_start(s@) == trim_start(s@.skip(n as int)),
        decreases s@.len() - n,
    {
        n += 1;
        assert(s@.skip(n - 1).drop_first() == s@.skip(n as int));
    }
    n
}

/// `s` without the white space at its two ends.
pub fn trimmed(s: &str) -> (r: String)
    ensures
        r@ == trim(s@),
{
    let v: Vec<char> = chars_of(s);
    let a: usize = trimmed_start(v.as_slice());
    let b: usize = trimmed_end(v.as_slice(), a);
    s.substring_char(a, b).to_owned()
}

/// `s` without the white space at its end.
pub fn trimmed_right(s: &str) -> (r: String)
    ensures
        r@ == trim_end(s@),
{
    let v: Vec<char> = chars_of(s);
    let b: usize = trimmed_end(v.as_slice(), 0);
    assert(s@.skip(0) == s@);
    s.substring_char(0, b).to_owned()
}

/// `s` without the characters at its end that are not alphanumeric.
pub fn without_tail(s: &str) -> (r: String)
    ensures
        r@ == strip_tail(s@),
{
    let v: Vec<char> = chars_of(s);
    let mut n: usize = v.len();
    assert(s@.take(n as int) == s@);
    while n > 0 && !v[n - 1].is_alphanumeric()
        invariant
            0 <= n <= v@.len(),
            v@ == s@,
            strip_tail(s@) == strip_tail(s@.take(n as int)),
        decreases n,
    {
        n -= 1;
        assert(s@.take(n + 1).drop_last() == s@.take(n as int));
    }
    assert(s@.take(n as int) == s@.subrange(0, n as int));
    s.substring_char(0, n).to_owned()
}

/// The ends of a trimmed text are not white space.
pub proof fn trim_has_no_outer_space(s: Seq<char>)
    ensures
        trim(s).len() > 0 ==> !white_space(trim(s).first()) && !white_space(trim(s).last()),
{
    trim_start_shape(s);
    trim_end_shape(trim_start(s));
}

proof fn trim_start_shape(s: Seq<char>)
    ensures
        trim_start(s).len() > 0 ==> !white_space(trim_start(s).first()),
    decreases s.len(),
{
    if s.len() > 0 && white_space(s.first()) {
        trim_start_shape(s.drop_first());
    }
}

proof fn trim_end_shape(s: Seq<char>)
    ensures
        trim_end(s).len() > 0 ==> !white_space(trim_end(s).last()) && trim_end(s).first()
            == s.first(),
    decreases s.len(),
{
    if s.len() > 0 && white_space(s.last()) {
        trim_end_shape(s.drop_last());
    }
}

/// Trimming a trimmed text changes nothing.
pub proof fn trim_is_idempotent(s: Seq<char>)
    ensures
        trim(trim(s)) == trim(s),
{
    trim_has_no_outer_space(s);
}

// ---------------------------------------------------------------- splitting and joining

/// What separates the pieces of a text.
#[derive(Clone, Copy)]
pub enum Sep {
    /// Any white space character.
    White,
    /// Any character that is not alphanumeric.
    Punct,
    /// One given character.
    Mark(char),
}

impl Sep {
    /// `c` separates two pieces.
    pub open spec fn splits(self, c: char) -> bool {
        match self {
            Sep::White => white_space(c),
            Sep::Punct => !alphanumeric(c),
            Sep::Mark(m) => c == m,
        }
    }

    fn cuts(&self, c: char) -> (b: bool)
        ensures
            b == self.splits(c),
    {
        match self {
            Sep::White => c.is_whitespace(),
            Sep::Punct => !c.is_alphanumeric(),
            Sep::Mark(m) => c == *m,
        }
    }
}

/// The pieces of `s` between its separators, empty ones too. A text of `n` separators
/// has `n + 1` pieces.
pub open spec fn pieces(s: Seq<char>, sep: Sep) -> Seq<Seq<char>>
    decreases s.len(),
{
    if s.len() == 0 {
        seq![Seq::<char>::empty()]
    } else {
        let before = pieces(s.drop_last(), sep);
        if sep.splits(s.last()) {
            before.push(Seq::<char>::empty())
        } else {
            before.drop_last().push(before.last().push(s.last()))
        }
    }
}

/// The members of `p` that are not empty.
pub open spec fn filled(p: Seq<Seq<char>>) -> Seq<Seq<char>>
    decreases p.len(),
{
    if p.len() == 0 {
        Seq::empty()
    } else if p.last().len() == 0 {
        filled(p.drop_last())
    } else {
        filled(p.drop_last()).push(p.last())
    }
}

/// The words of `s`: what stands between white space.
pub open spec fn words(s: Seq<char>) -> Seq<Seq<char>> {
    filled(pieces(s, Sep::White))
}

/// The texts of a list of strings.
pub open spec fn texts(v: Seq<String>) -> Seq<Seq<char>> {
    Seq::new(v.len(), |i: int| v[i]@)
}

/// The texts of a list of string slices.
pub open spec fn str_texts(v: Seq<&str>) -> Seq<Seq<char>> {
    Seq::new(v.len(), |i: int| v[i]@)
}

/// The text of an optional string.
pub open spec fn opt_text(s: Option<String>) -> Option<Seq<char>> {
    match s {
        Some(t) => Some(t@),
        None => None,
    }
}

/// Every text has a piece.
pub proof fn pieces_not_empty(s: Seq<char>, sep: Sep)
    ensures
        pieces(s, sep).len() > 0,
    decreases s.len(),
{
    if s.len() > 0 {
        pieces_not_empty(s.drop_last(), sep);
    }
}

/// The pieces of `s`, empty ones too.
pub fn split(s: &str, sep: Sep) -> (r: Vec<String>)
    ensures
        texts(r@) == pieces(s@, sep),
{
    let v: Vec<char> = chars_of(s);
    let mut out: Vec<String> = Vec::new();
    let mut cur: String = String::new();
    let mut i: usize = 0;
    assert(texts(out@).push(cur@) =~= pieces(s@.take(0), sep));
    while i < v.len()
        invariant
            0 <= i <= v@.len(),
            v@ == s@,
            texts(out@).push(cur@) == pieces(s@.take(i as int), sep),
        decreases v@.len() - i,
    {
        let ghost before = texts(out@).push(cur@);
        let ghost done = out@;
        assert(s@.take(i + 1).drop_last() == s@.take(i as int));
        assert(before.drop_last() =~= texts(done));
        if sep.cuts(v[i]) {
            out.push(cur);
            cur = String::new();
            assert(texts(out@) =~= before);
        } else {
            cur.push(v[i]);
        }
        i += 1;
    }
    assert(s@.take(i as int) == s@);
    let ghost done = out@;
    out.push(cur);
    assert(texts(out@) =~= texts(done).push(cur@));
    out
}

/// The strings of `v` that are not empty.
pub fn without_empty(v: Vec<String>) -> (r: Vec<String>)
    ensures
        texts(r@) == filled(texts(v@)),
{
    let mut out: Vec<String> = Vec::new();
    let mut i: usize = 0;
    assert(texts(out@) =~= filled(texts(v@).take(0)));
    while i < v.len()
        invariant
            0 <= i <= v@.len(),
            texts(out@) == filled(texts(v@).take(i as int)),
        decreases v@.len() - i,
    {
        let ghost done = out@;
        assert(texts(v@).take(i + 1).drop_last() == texts(v@).take(i as int));
        assert(texts(v@).take(i + 1).last() == v@[i as int]@);
        if !v[i].as_str().is_empty() {
            out.push(v[i].clone());
            assert(texts(out@) =~= texts(done).push(v@[i as int]@));
        }
        i += 1;
    }
    assert(texts(v@).take(i as int) == texts(v@));
    out
}

/// The words of `s`.
pub fn words_of(s: &str) -> (r: Vec<String>)
    ensures
        texts(r@) == words(s@),
{
    without_empty(split(s, Sep::White))
}

/// The members of `p` one after the other, with `glue` between them.
pub open spec fn joined(p: Seq<Seq<char>>, glue: Seq<char>) -> Seq<char>
    decreases p.len(),
{
    if p.len() == 0 {
        Seq::empty()
    } else if p.len() == 1 {
        p[0]
    } else {
        joined(p.drop_last(), glue) + glue + p.last()
    }
}

/// The first `n` strings of `v` one after the other, with `glue` between them.
pub fn join_first(v: &Vec<String>, n: usize, glue: &str) -> (r: String)
    requires
        n <= v@.len(),
    ensures
        r@ == joined(texts(v@).take(n as int), glue@),
{
    let mut r: String = String::new();
    let mut i: usize = 0;
    while i < n
        invariant
            0 <= i <= n <= v@.len(),
            r@ == joined(texts(v@).take(i as int), glue@),
        decreases n - i,
    {
        assert(texts(v@).take(i + 1).drop_last() == texts(v@).take(i as int));
        if i > 0 {
            r.append(glue);
        }
        r.append(v[i].as_str());
        i += 1;
        assert(r@ =~= joined(texts(v@).take(i as int), glue@));
    }
    r
}

/// The strings of `v` one after the other, with `glue` between them.
pub fn join(v: &Vec<String>, glue: &str) -> (r: String)
    ensures
        r@ == joined(texts(v@), glue@),
{
    assert(texts(v@).take(v@.len() as int) == texts(v@));
    join_first(v, v.len(), glue)
}

/// Each of the texts in lower case.
pub open spec fn lowered(p: Seq<Seq<char>>) -> Seq<Seq<char>> {
    Seq::new(p.len(), |i: int| lower(p[i]))
}

/// The texts of `v` in lower case.
pub fn lower_all(v: &Vec<String>) -> (r: Vec<String>)
    ensures
        texts(r@) == lowered(texts(v@)),
{
    let mut r: Vec<String> = Vec::new();
    let mut i: usize = 0;
    while i < v.len()
        invariant
            0 <= i <= v@.len(),
            texts(r@) == lowered(texts(v@)).take(i as int),
        decreases v@.len() - i,
    {
        let ghost done = r@;
        r.push(v[i].as_str().to_lowercase());
        i += 1;
        assert(texts(r@) =~= texts(done).push(lower(v@[i - 1]@)));
        assert(lowered(texts(v@)).take(i as int) =~= lowered(texts(v@)).take(i - 1).push(
            lower(v@[i - 1]@),
        ));
    }
    assert(lowered(texts(v@)).take(i as int) =~= lowered(texts(v@)));
    r
}

// ---------------------------------------------------------------- replacing

/// `s` with every `c` taken out.
pub open spec fn without_char(s: Seq<char>, c: char) -> Seq<char>
    decreases s.len(),
{
    if s.len() == 0 {
        Seq::empty()
    } else if s.last() == c {
        without_char(s.drop_last(), c)
    } else {
        without_char(s.drop_last(), c).push(s.last())
    }
}

/// `s` with `b` in place of every `a`.
pub open spec fn swap_char(s: Seq<char>, a: char, b: char) -> Seq<char> {
    s.map_values(|c: char| if c == a { b } else { c })
}

/// `s` with `new` in place of each occurrence of `old_part`, read from left to right
/// without overlap.
pub open spec fn replaced(s: Seq<char>, old_part: Seq<char>, new: Seq<char>) -> Seq<char>
    decreases s.len(),
{
    match find(s, old_part) {
        Some(i) => if old_part.len() == 0 || i < 0 || i + old_part.len() > s.len() {
            s
        } else {
            s.take(i) + new + replaced(s.skip(i + old_part.len()), old_part, new)
        },
        None => s,
    }
}

/// Every character of a text with replacements is one of the text or one of the replacement.
pub proof fn replaced_members(s: Seq<char>, old_part: Seq<char>, new: Seq<char>)
    ensures
        forall|k: int|
            0 <= k < replaced(s, old_part, new).len() ==> s.contains(
                #[trigger] replaced(s, old_part, new)[k],
            ) || new.contains(replaced(s, old_part, new)[k]),
    decreases s.len(),
{
    let r = replaced(s, old_part, new);
    match find(s, old_part) {
        Some(i) => if old_part.len() == 0 || i < 0 || i + old_part.len() > s.len() {
        } else {
            let tail = s.skip(i + old_part.len());
            let rest = replaced(tail, old_part, new);
            replaced_members(tail, old_part, new);
            assert forall|k: int| 0 <= k < r.len() implies s.contains(#[trigger] r[k])
                || new.contains(r[k]) by {
                if k < i {
                    assert(s[k] == r[k]);
                } else if k < i + new.len() {
                    assert(new[k - i] == r[k]);
                } else {
                    let m = k - i - new.len();
                    assert(rest[m] == r[k]);
                    if tail.contains(rest[m]) {
                        let q = choose|q: int| 0 <= q < tail.len() && tail[q] == rest[m];
                        assert(s[i + old_part.len() + q] == r[k]);
                    }
                }
            }
        },
        None => {},
    }
}

/// Where a part of two characters is replaced by characters that are not in it, it is gone.
pub proof fn replaced_is_gone(s: Seq<char>, old_part: Seq<char>, new: Seq<char>)
    requires
        old_part.len() == 2,
        new.len() > 0,
        forall|k: int| 0 <= k < new.len() ==> !old_part.contains(#[trigger] new[k]),
    ensures
        !occurs(replaced(s, old_part, new), old_part),
    decreases s.len(),
{
    let r = replaced(s, old_part, new);
    find_is_first(s, old_part);
    match find(s, old_part) {
        Some(i) => {
            let tail = s.skip(i + old_part.len());
            let rest = replaced(tail, old_part, new);
            replaced_is_gone(tail, old_part, new);
            assert forall|j: int| !occurs_at(r, old_part, j) by {
                if occurs_at(r, old_part, j) {
                    let w = r.subrange(j, j + 2);
                    assert(w[0] == r[j] && w[1] == r[j + 1]);
                    assert(old_part.contains(old_part[0]) && old_part.contains(old_part[1]));
                    if j + 2 <= i {
                        assert(s.subrange(j, j + 2) =~= w);
                        assert(occurs_at(s, old_part, j));
                    } else if j < i {
                        assert(r[i] == new[0]);
                    } else if j < i + new.len() {
                        assert(r[j] == new[j - i]);
                    } else {
                        let m = j - i - new.len();
                        assert(rest.subrange(m, m + 2) =~= w);
                        assert(occurs_at(rest, old_part, m));
                    }
                }
            }
        },
        None => {},
    }
}

/// `s` with every `c` taken out.
pub fn drop_char(s: &str, c: char) -> (r: String)
    ensures
        r@ == without_char(s@, c),
{
    let v: Vec<char> = chars_of(s);
    let mut r: String = String::new();
    let mut i: usize = 0;
    while i < v.len()
        invariant
            0 <= i <= v@.len(),
            v@ == s@,
            r@ == without_char(s@.take(i as int), c),
        decreases v@.len() - i,
    {
        assert(s@.take(i + 1).drop_last() == s@.take(i as int));
        if v[i] != c {
            r.push(v[i]);
        }
        i += 1;
    }
    assert(s@.take(i as int) == s@);
    r
}

/// `s` with `b` in place of every `a`.
pub fn with_char(s: &str, a: char, b: char) -> (r: String)
    ensures
        r@ == swap_char(s@, a, b),
{
    let v: Vec<char> = chars_of(s);
    let mut r: String = String::new();
    let mut i: usize = 0;
    while i < v.len()
        invariant
            0 <= i <= v@.len(),
            v@ == s@,
            r@ == swap_char(s@, a, b).take(i as int),
        decreases v@.len() - i,
    {
        if v[i] == a {
            r.push(b);
        } else {
            r.push(v[i]);
        }
        i += 1;
        assert(swap_char(s@, a, b).take(i as int) =~= swap_char(s@, a, b).take(i - 1).push(
            swap_char(s@, a, b)[i - 1],
        ));
    }
    assert(swap_char(s@, a, b).take(i as int) == swap_char(s@, a, b));
    r
}

/// `s` with `new` in place of each occurrence of `old_part`.
pub fn replace_all(s: &str, old_part: &str, new: &str) -> (r: String)
    requires
        old_part@.len() > 0,
    ensures
        r@ == replaced(s@, old_part@, new@),
{
    let v: Vec<char> = chars_of(s);
    let w: Vec<char> = chars_of(old_part);
    let mut r: String = String::new();
    let mut from: usize = 0;
    assert(s@.skip(0) == s@);
    loop
        invariant
            0 <= from <= v@.len(),
            v@ == s@,
            w@ == old_part@,
            w@.len() > 0,
            r@ + replaced(s@.skip(from as int), old_part@, new@) == replaced(s@, old_part@, new@),
        decreases v@.len() - from,
    {
        let rest: String = s.substring_char(from, v.len()).to_owned();
        assert(rest@ == s@.skip(from as int));
        let rc: Vec<char> = chars_of(rest.as_str());
        proof {
            find_is_first(rest@, old_part@);
        }
        match find_in(rc.as_slice(), w.as_slice()) {
            Some(i) => {
                let ghost before = r@;
                r.append(s.substring_char(from, from + i));
                r.append(new);
                assert(rest@.take(i as int) == s@.subrange(from as int, from + i));
                assert(rest@.skip(i + w@.len()) == s@.skip(from + i + w@.len()));
                from = from + i + w.len();
                assert(r@ + replaced(s@.skip(from as int), old_part@, new@) =~= before + replaced(
                    rest@,
                    old_part@,
                    new@,
                ));
            },
            None => {
                let ghost before = r@;
                r.append(rest.as_str());
                return r;
            },
        }
    }
}

// ---------------------------------------------------------------- decimal numbers

/// `c` is an ASCII digit.
pub open spec fn digit(c: char) -> bool {
    '0' <= c && c <= '9'
}

/// The number that the digits `s` write.
pub open spec fn number_of(s: Seq<char>) -> nat
    decreases s.len(),
{
    if s.len() == 0 {
        0
    } else {
        number_of(s.drop_last()) * 10 + (s.last() as u32 - '0' as u32) as nat
    }
}

/// The decimal digits of `n`, without leading zeros.
pub open spec fn decimal(n: nat) -> Seq<char>
    decreases n,
{
    if n < 10 {
        seq![('0' as u32 + n) as char]
    } else {
        decimal(n / 10).push(('0' as u32 + n % 10) as char)
    }
}

/// Reading the decimal digits of a number gives the number.
pub proof fn decimal_reads_back(n: nat)
    ensures
        number_of(decimal(n)) == n,
        forall|i: int| 0 <= i < decimal(n).len() ==> digit(#[trigger] decimal(n)[i]),
        decimal(n).len() > 0,
    decreases n,
{
    if n < 10 {
        assert(decimal(n).drop_last() =~= Seq::empty());
        assert(number_of(Seq::empty()) == 0);
    } else {
        decimal_reads_back(n / 10);
        assert(decimal(n).drop_last() =~= decimal(n / 10));
    }
}

/// The character of one decimal digit.
fn digit_char(d: u8) -> (c: char)
    requires
        d < 10,
    ensures
        c == ('0' as u32 + d) as char,
{
    (48 + d) as char
}

/// The decimal digits of `n`.
pub fn decimal_of(n: u64) -> (r: String)
    ensures
        r@ == decimal(n as nat),
    decreases n,
{
    if n < 10 {
        let mut r: String = String::new();
        r.push(digit_char(n as u8));
        assert(r@ =~= decimal(n as nat));
        r
    } else {
        let mut r: String = decimal_of(n / 10);
        r.push(digit_char((n % 10) as u8));
        r
    }
}

/// The number that the digits `v` write, or `None` when it is greater than `max`.
pub fn read_number(v: &[char], max: u64) -> (r: Option<u64>)
    requires
        forall|i: int| 0 <= i < v@.len() ==> digit(#[trigger] v@[i]),
    ensures
        match r {
            Some(n) => n == number_of(v@) && n <= max,
            None => number_of(v@) > max,
        },
{
    let mut n: u64 = 0;
    let mut i: usize = 0;
    while i < v.len()
        invariant
            0 <= i <= v@.len(),
            n == number_of(v@.take(i as int)),
            n <= max,
            forall|i: int| 0 <= i < v@.len() ==> digit(#[trigger] v@[i]),
        decreases v@.len() - i,
    {
        assert(v@.take(i + 1).drop_last() == v@.take(i as int));
        assert(digit(v@[i as int]));
        let d: u64 = v[i] as u64 - '0' as u64;
        let wide: u128 = n as u128 * 10 + d as u128;
        if wide > max as u128 {
            proof {
                number_grows(v@, i + 1);
            }
            return None;
        }
        n = wide as u64;
        i += 1;
    }
    assert(v@.take(i as int) == v@);
    Some(n)
}

/// A longer run of digits writes a number that is not smaller.
proof fn number_grows(s: Seq<char>, k: int)
    requires
        0 <= k <= s.len(),
        forall|i: int| 0 <= i < s.len() ==> digit(#[trigger] s[i]),
    ensures
        number_of(s.take(k)) <= number_of(s),
    decreases s.len(),
{
    if k < s.len() {
        assert forall|i: int| 0 <= i < s.drop_last().len() implies digit(
            #[trigger] s.drop_last()[i],
        ) by {
            assert(digit(s[i]));
        }
        number_grows(s.drop_last(), k);
        assert(s.drop_last().take(k) == s.take(k));
    } else {
        assert(s.take(k) == s);
    }
}

/// `s` without the plus sign that it may begin with.
pub open spec fn without_plus(s: Seq<char>) -> Seq<char> {
    if s.len() > 0 && s[0] == '+' {
        s.drop_first()
    } else {
        s
    }
}

/// The number that `s` writes as an unsigned integer of at most `max`: digits, with an
/// optional plus sign before them.
pub open spec fn unsigned_value(s: Seq<char>, max: nat) -> Option<nat> {
    let d = without_plus(s);
    if d.len() > 0 && (forall|i: int| 0 <= i < d.len() ==> digit(#[trigger] d[i])) && number_of(d)
        <= max {
        Some(number_of(d))
    } else {
        None
    }
}

/// Reads `s` as an unsigned integer of at most `max`.
pub fn read_unsigned(s: &str, max: u64) -> (r: Option<u64>)
    ensures
        match r {
            Some(n) => unsigned_value(s@, max as nat) == Some(n as nat),
            None => unsigned_value(s@, max as nat) is None,
        },
{
    let mut v: Vec<char> = chars_of(s);
    let ghost d = without_plus(s@);
    if v.len() > 0 && v[0] == '+' {
        v.remove(0);
    }
    assert(v@ =~= d);
    if v.len() == 0 {
        return None;
    }
    let mut i: usize = 0;
    while i < v.len()
        invariant
            0 <= i <= v@.len(),
            v@ == d,
            d == without_plus(s@),
            forall|k: int| 0 <= k < i ==> digit(#[trigger] d[k]),
        decreases v@.len() - i,
    {
        if v[i] < '0' || v[i] > '9' {
            assert(!digit(d[i as int]));
            return None;
        }
        i += 1;
    }
    read_number(v.as_slice(), max)
}

// ---------------------------------------------------------------- laws of splitting

/// Text on the two sides of a separator is split apart: neither side reaches into the other.
pub proof fn separator_parts(a: Seq<char>, c: char, b: Seq<char>, sep: Sep)
    requires
        sep.splits(c),
    ensures
        pieces(a.push(c) + b, sep) == pieces(a, sep) + pieces(b, sep),
    decreases b.len(),
{
    if b.len() == 0 {
        assert(a.push(c) + b =~= a.push(c));
        assert(a.push(c).drop_last() =~= a);
        assert(pieces(a, sep) + pieces(b, sep) =~= pieces(a, sep).push(Seq::<char>::empty()));
    } else {
        let s = a.push(c) + b;
        let d = b.drop_last();
        separator_parts(a, c, d, sep);
        pieces_not_empty(d, sep);
        assert(s.drop_last() =~= a.push(c) + d);
        assert(s.last() == b.last());
        let p = pieces(a, sep) + pieces(d, sep);
        assert(p.last() == pieces(d, sep).last());
        assert(p.drop_last() =~= pieces(a, sep) + pieces(d, sep).drop_last());
        assert(pieces(s, sep) =~= pieces(a, sep) + pieces(b, sep));
    }
}

/// A text without separators is one piece.
pub proof fn unbroken_is_one_piece(s: Seq<char>, sep: Sep)
    requires
        forall|i: int| 0 <= i < s.len() ==> !sep.splits(#[trigger] s[i]),
    ensures
        pieces(s, sep) == seq![s],
    decreases s.len(),
{
    if s.len() > 0 {
        let d = s.drop_last();
        assert forall|i: int| 0 <= i < d.len() implies !sep.splits(#[trigger] d[i]) by {
            assert(!sep.splits(s[i]));
        }
        unbroken_is_one_piece(d, sep);
        assert(!sep.splits(s[s.len() - 1]));
        assert(d.push(s.last()) =~= s);
        assert(pieces(s, sep) =~= seq![s]);
    } else {
        assert(s =~= Seq::<char>::empty());
    }
}

/// `w` stands in `s` at `i`, as far as a separator or the end on both sides.
pub open spec fn stands_alone(s: Seq<char>, w: Seq<char>, i: int, sep: Sep) -> bool {
    &&& occurs_at(s, w, i)
    &&& i == 0 || sep.splits(s[i - 1])
    &&& i + w.len() == s.len() || sep.splits(s[i + w.len()])
}

/// What stands between two separators, and holds none, is a piece.
pub proof fn piece_between_separators(s: Seq<char>, w: Seq<char>, i: int, sep: Sep)
    requires
        stands_alone(s, w, i, sep),
        forall|k: int| 0 <= k < w.len() ==> !sep.splits(#[trigger] w[k]),
    ensures
        pieces(s, sep).contains(w),
{
    let n = i + w.len();
    let a = s.take(i);
    let b = s.skip(n);
    assert(s.subrange(i, n) == w);
    unbroken_is_one_piece(w, sep);
    let wb = w + b;
    if n < s.len() {
        let rest = b.drop_first();
        separator_parts(w, s[n], rest, sep);
        assert(w.push(s[n]) + rest =~= wb);
        assert(pieces(wb, sep)[0] == w);
    } else {
        assert(wb =~= w);
        assert(pieces(wb, sep)[0] == w);
    }
    if i > 0 {
        let before = a.drop_last();
        separator_parts(before, s[i - 1], wb, sep);
        assert(before.push(s[i - 1]) + wb =~= s);
        assert(pieces(s, sep)[pieces(before, sep).len() as int] == w);
    } else {
        assert(wb =~= s);
    }
}

/// Where member `k` of `p` begins where one separator stands between each two of them.
pub open spec fn piece_start(p: Seq<Seq<char>>, k: int) -> int
    decreases k,
{
    if k <= 0 {
        0
    } else {
        piece_start(p, k - 1) + p[k - 1].len() + 1
    }
}

proof fn piece_start_same(p: Seq<Seq<char>>, q: Seq<Seq<char>>, k: int)
    requires
        forall|m: int| 0 <= m < k ==> p[m] == q[m],
    ensures
        piece_start(p, k) == piece_start(q, k),
    decreases k,
{
    if k > 0 {
        piece_start_same(p, q, k - 1);
        assert(p[k - 1] == q[k - 1]);
    }
}

/// The pieces stand in the text in order, each between two separators, with one separator between
/// each two of them: nothing else is taken out of the text.
pub proof fn pieces_stand_alone(s: Seq<char>, sep: Sep, k: int)
    requires
        0 <= k < pieces(s, sep).len(),
    ensures
        stands_alone(s, pieces(s, sep)[k], piece_start(pieces(s, sep), k), sep),
        forall|m: int|
            0 <= m < pieces(s, sep)[k].len() ==> !sep.splits(#[trigger] pieces(s, sep)[k][m]),
        k == pieces(s, sep).len() - 1 <==> piece_start(pieces(s, sep), k) + pieces(s, sep)[k].len()
            == s.len(),
    decreases s.len(),
{
    let p = pieces(s, sep);
    let w = p[k];
    let i = piece_start(p, k);
    if s.len() == 0 {
        assert(s.subrange(0, 0) =~= w);
    } else {
        let d = s.drop_last();
        let before = pieces(d, sep);
        pieces_not_empty(d, sep);
        let n = s.len() as int;
        if k < before.len() {
            pieces_stand_alone(d, sep, k);
        }
        piece_start_same(p, before, if k < before.len() {
            k
        } else {
            before.len() as int
        });
        if sep.splits(s.last()) {
            if k == before.len() {
                pieces_stand_alone(d, sep, k - 1);
                assert(p[k - 1] == before[k - 1]);
                piece_start_same(p, before, k - 1);
                assert(i == n);
                assert(s.subrange(n, n) =~= w);
            } else {
                assert(s.subrange(i, i + w.len()) =~= d.subrange(i, i + w.len()));
            }
        } else if k == before.len() - 1 {
            let v = before.last();
            assert(w == v.push(s.last()));
            assert(d.subrange(i, i + v.len()) == v);
            assert(s.subrange(i, n) =~= w);
        } else {
            assert(w == before[k]);
            assert(s.subrange(i, i + w.len()) =~= d.subrange(i, i + w.len()));
        }
    }
}

/// What is joined by a separator that stands in none of the parts is split into the same parts.
pub proof fn splitting_undoes_joining(p: Seq<Seq<char>>, c: char)
    requires
        p.len() > 0,
        forall|k: int| 0 <= k < p.len() ==> !(#[trigger] p[k]).contains(c),
    ensures
        pieces(joined(p, seq![c]), Sep::Mark(c)) == p,
    decreases p.len(),
{
    let sep = Sep::Mark(c);
    let last = p.last();
    assert(p[p.len() - 1] == last);
    assert forall|i: int| 0 <= i < last.len() implies !sep.splits(#[trigger] last[i]) by {
        assert(last.contains(last[i]));
    }
    unbroken_is_one_piece(last, sep);
    if p.len() > 1 {
        let d = p.drop_last();
        assert forall|k: int| 0 <= k < d.len() implies !(#[trigger] d[k]).contains(c) by {
            assert(!p[k].contains(c));
        }
        splitting_undoes_joining(d, c);
        separator_parts(joined(d, seq![c]), c, last, sep);
        assert(joined(p, seq![c]) =~= joined(d, seq![c]).push(c) + last);
        assert(d + seq![last] =~= p);
    } else {
        assert(p =~= seq![last]);
    }
}

/// The filled members are those that are not empty, and no others.
pub proof fn filled_members(p: Seq<Seq<char>>, w: Seq<char>)
    ensures
        filled(p).contains(w) <==> w.len() > 0 && p.contains(w),
    decreases p.len(),
{
    if p.len() > 0 {
        let d = p.drop_last();
        filled_members(d, w);
        if p.contains(w) {
            let k = choose|k: int| 0 <= k < p.len() && p[k] == w;
            if k < d.len() {
                assert(d[k] == w);
            }
        }
        if d.contains(w) {
            let k = choose|k: int| 0 <= k < d.len() && d[k] == w;
            assert(p[k] == w);
        }
        assert(p[p.len() - 1] == p.last());
        let f = filled(d);
        if p.last().len() > 0 {
            assert(filled(p) == f.push(p.last()));
            assert(filled(p)[f.len() as int] == p.last());
            if f.contains(w) {
                let k = choose|k: int| 0 <= k < f.len() && f[k] == w;
                assert(filled(p)[k] == w);
            }
            if filled(p).contains(w) {
                let k = choose|k: int| 0 <= k < filled(p).len() && filled(p)[k] == w;
                if k < f.len() {
                    assert(f[k] == w);
                }
            }
        }
    }
}

// ---------------------------------------------------------------- laws of trimming

/// Every character of `s` is white space.
pub open spec fn all_white(s: Seq<char>) -> bool {
    forall|i: int| 0 <= i < s.len() ==> white_space(#[trigger] s[i])
}

proof fn trim_start_drops_space(a: Seq<char>, s: Seq<char>)
    requires
        all_white(a),
        s.len() > 0 ==> !white_space(s.first()),
    ensures
        trim_start(a + s) == s,
    decreases a.len(),
{
    if a.len() > 0 {
        assert(white_space(a[0]));
        assert((a + s).first() == a[0]);
        assert((a + s).drop_first() =~= a.drop_first() + s);
        assert forall|i: int| 0 <= i < a.drop_first().len() implies white_space(
            #[trigger] a.drop_first()[i],
        ) by {
            assert(white_space(a[i + 1]));
        }
        trim_start_drops_space(a.drop_first(), s);
    } else {
        assert(a + s =~= s);
    }
}

proof fn trim_end_drops_space(s: Seq<char>, b: Seq<char>)
    requires
        all_white(b),
        s.len() > 0 ==> !white_space(s.last()),
    ensures
        trim_end(s + b) == s,
    decreases b.len(),
{
    if b.len() > 0 {
        assert(white_space(b[b.len() - 1]));
        assert((s + b).last() == b[b.len() - 1]);
        assert((s + b).drop_last() =~= s + b.drop_last());
        assert forall|i: int| 0 <= i < b.drop_last().len() implies white_space(
            #[trigger] b.drop_last()[i],
        ) by {
            assert(white_space(b[i]));
        }
        trim_end_drops_space(s, b.drop_last());
    } else {
        assert(s + b =~= s);
    }
}

/// Trimming takes off white space at the two ends and nothing else.
pub proof fn trimming_takes_outer_space(a: Seq<char>, s: Seq<char>, b: Seq<char>)
    requires
        all_white(a),
        all_white(b),
        s.len() > 0 ==> !white_space(s.first()) && !white_space(s.last()),
    ensures
        trim(a + s + b) == s,
        trim(s) == s,
{
    let e = Seq::<char>::empty();
    trim_start_drops_space(e, s);
    assert(e + s =~= s);
    trim_end_drops_space(s, e);
    assert(s + e =~= s);
    if s.len() > 0 {
        assert((s + b).first() == s.first());
        trim_start_drops_space(a, s + b);
        assert(a + s + b =~= a + (s + b));
        trim_end_drops_space(s, b);
    } else {
        assert(s =~= e);
        assert(a + s + b =~= a + b);
        assert forall|i: int| 0 <= i < (a + b).len() implies white_space(
            #[trigger] (a + b)[i],
        ) by {
            if i < a.len() {
                assert(white_space(a[i]));
            } else {
                assert(white_space(b[i - a.len()]));
            }
        }
        trim_start_drops_space(a + b, e);
        assert(a + b + e =~= a + b);
    }
}

// ---------------------------------------------------------------- laws of numbers

/// A number in decimal digits, with or without a plus sign, is read as that number where it is
/// not too great, and as none where it is.
pub proof fn unsigned_reads_back(n: nat, max: nat)
    ensures
        unsigned_value(decimal(n), max) == (if n <= max {
            Some(n)
        } else {
            None
        }),
        unsigned_value(seq!['+'] + decimal(n), max) == unsigned_value(decimal(n), max),
{
    decimal_reads_back(n);
    let d = decimal(n);
    assert(digit(d[0]));
    assert(without_plus(d) == d);
    assert((seq!['+'] + d).drop_first() =~= d);
}

/// Every digit counts ten times as much as the one after it.
pub proof fn digits_have_place_value(a: Seq<char>, c: char)
    requires
        digit(c),
    ensures
        number_of(a.push(c)) == 10 * number_of(a) + (c as u32 - '0' as u32),
        number_of(Seq::empty()) == 0,
{
    assert(a.push(c).drop_last() =~= a);
}

// ---------------------------------------------------------------- laws of words

proof fn filled_parts(a: Seq<Seq<char>>, b: Seq<Seq<char>>)
    ensures
        filled(a + b) == filled(a) + filled(b),
    decreases b.len(),
{
    if b.len() == 0 {
        assert(a + b =~= a);
        assert(filled(a) + filled(b) =~= filled(a));
    } else {
        filled_parts(a, b.drop_last());
        assert((a + b).drop_last() =~= a + b.drop_last());
        assert(filled(a + b) =~= filled(a) + filled(b));
    }
}

/// Words end at white space and nowhere else: the words on the two sides of it come one after the
/// other, and a text without white space is one word.
pub proof fn words_end_at_white_space(a: Seq<char>, c: char, b: Seq<char>)
    ensures
        white_space(c) ==> words(a.push(c) + b) == words(a) + words(b),
        a.len() > 0 && (forall|i: int| 0 <= i < a.len() ==> !white_space(#[trigger] a[i]))
            ==> words(a) == seq![a],
        words(Seq::empty()) == Seq::<Seq<char>>::empty(),
{
    let sep = Sep::White;
    if white_space(c) {
        separator_parts(a, c, b, sep);
        filled_parts(pieces(a, sep), pieces(b, sep));
    }
    if a.len() > 0 && (forall|i: int| 0 <= i < a.len() ==> !white_space(#[trigger] a[i])) {
        unbroken_is_one_piece(a, sep);
        assert(seq![a].drop_last() =~= Seq::empty());
        assert(filled(seq![a].drop_last()) =~= Seq::empty());
        assert(filled(seq![a]) =~= seq![a]);
    }
    let e = Seq::<char>::empty();
    unbroken_is_one_piece(e, sep);
    assert(seq![e].drop_last() =~= Seq::empty());
    assert(filled(seq![e].drop_last()) =~= Seq::empty());
}

/// Joining puts the parts one after the other with the glue between each two of them.
pub proof fn joining_glues_the_parts(p: Seq<Seq<char>>, w: Seq<char>, glue: Seq<char>)
    ensures
        joined(Seq::empty(), glue) == Seq::<char>::empty(),
        joined(seq![w], glue) == w,
        p.len() > 0 ==> joined(p.push(w), glue) == joined(p, glue) + glue + w,
{
    assert(p.push(w).drop_last() =~= p);
}

/// The punctuation at the end of a phrase is taken off, and nothing else.
pub proof fn only_the_tail_is_stripped(s: Seq<char>, b: Seq<char>)
    requires
        s.len() == 0 || alphanumeric(s.last()),
        forall|i: int| 0 <= i < b.len() ==> !alphanumeric(#[trigger] b[i]),
    ensures
        strip_tail(s + b) == s,
    decreases b.len(),
{
    if b.len() == 0 {
        assert(s + b =~= s);
    } else {
        assert(!alphanumeric(b[b.len() - 1]));
        assert((s + b).last() == b[b.len() - 1]);
        assert((s + b).drop_last() =~= s + b.drop_last());
        assert forall|i: int| 0 <= i < b.drop_last().len() implies !alphanumeric(
            #[trigger] b.drop_last()[i],
        ) by {
            assert(!alphanumeric(b[i]));
        }
        only_the_tail_is_stripped(s, b.drop_last());
    }
}

/// A part of a text stands in it, wherever it is put.
pub proof fn parts_occur(a: Seq<char>, w: Seq<char>, b: Seq<char>)
    ensures
        occurs(a + w + b, w),
        occurs_at(a + w + b, w, a.len() as int),
        w.len() > a.len() ==> !occurs(a, w),
{
    let n = a.len() as int;
    assert((a + w + b).subrange(n, n + w.len()) =~= w);
    assert(occurs_at(a + w + b, w, n));
}

} // verus!
