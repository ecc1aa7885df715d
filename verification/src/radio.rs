//! Online radio: the favorite stations, which one a phrase names, and where to find a stream.

use vstd::prelude::*;
use crate::phrases::{names_radio, radio_context_in};
use crate::text::{
    all_white, alphanumeric, begins_with, ends_with, filled, filled_members, find, find_is_first,
    has, joined, lower, lower_all, lowered, occurs, occurs_at, opt_text, piece_between_separators,
    pieces, plain_small, replace_all, replaced, replaced_is_gone, replaced_members, same,
    separator_parts, settled, split, splitting_undoes_joining, stands_alone, swap_char, texts, trim,
    trimmed, trimming_takes_outer_space, unbroken_is_one_piece, white_space, with_char,
    without_empty, Sep,
};

verus! {

// ---------------------------------------------------------------- favorites

/// A favorite station: its name, the address of its stream where one is pinned, and further
/// names by which it is asked for.
pub struct RadioStation {
    pub name: String,
    pub url: Option<String>,
    pub aliases: Vec<String>,
}

/// The value of a `RadioStation`.
#[verifier::ext_equal]
pub struct StationView {
    pub name: Seq<char>,
    pub url: Option<Seq<char>>,
    pub aliases: Seq<Seq<char>>,
}

impl View for RadioStation {
    type V = StationView;

    open spec fn view(&self) -> StationView {
        StationView { name: self.name@, url: opt_text(self.url), aliases: texts(self.aliases@) }
    }
}

/// The values of a list of stations.
pub open spec fn stations(v: Seq<RadioStation>) -> Seq<StationView> {
    Seq::new(v.len(), |i: int| v[i]@)
}

/// Each of the texts without the white space at its ends.
pub open spec fn trimmed_all(p: Seq<Seq<char>>) -> Seq<Seq<char>> {
    Seq::new(p.len(), |i: int| trim(p[i]))
}

/// The station that a setting describes: `Name`, `Name | address` or
/// `Name | address | alias, alias`. A setting without a name describes none.
pub open spec fn station_entry(raw: Seq<char>) -> Option<StationView> {
    let parts = trimmed_all(pieces(trim(raw), Sep::Mark('|')));
    if parts[0].len() == 0 {
        None
    } else {
        Some(
            StationView {
                name: parts[0],
                url: if parts.len() > 1 && parts[1].len() > 0 {
                    Some(parts[1])
                } else {
                    None
                },
                aliases: if parts.len() > 2 {
                    filled(
                        trimmed_all(
                            pieces(pieces(trim(raw), Sep::Mark('|'))[2], Sep::Mark(',')),
                        ),
                    )
                } else {
                    Seq::empty()
                },
            },
        )
    }
}

/// The stations that a list of settings describes, in order.
pub open spec fn station_entries(raw: Seq<Seq<char>>) -> Seq<StationView>
    decreases raw.len(),
{
    if raw.len() == 0 {
        Seq::empty()
    } else {
        let before = station_entries(raw.drop_last());
        match station_entry(raw.last()) {
            Some(s) => before.push(s),
            None => before,
        }
    }
}

fn trim_all(v: &Vec<String>) -> (r: Vec<String>)
    ensures
        texts(r@) == trimmed_all(texts(v@)),
{
    let mut r: Vec<String> = Vec::new();
    let mut i: usize = 0;
    while i < v.len()
        invariant
            0 <= i <= v@.len(),
            texts(r@) == trimmed_all(texts(v@)).take(i as int),
        decreases v@.len() - i,
    {
        let ghost done = r@;
        r.push(trimmed(v[i].as_str()));
        i += 1;
        assert(texts(r@) =~= texts(done).push(trim(v@[i - 1]@)));
        assert(trimmed_all(texts(v@)).take(i as int) =~= trimmed_all(texts(v@)).take(i - 1).push(
            trim(v@[i - 1]@),
        ));
    }
    assert(trimmed_all(texts(v@)).take(i as int) =~= trimmed_all(texts(v@)));
    r
}

/// Reads the station that a setting describes.
pub fn parse_station(source: &str) -> (r: Option<RadioStation>)
    ensures
        match r {
            Some(s) => station_entry(source@) == Some(s@),
            None => station_entry(source@) is None,
        },
{
    let raw: String = trimmed(source);
    let parts: Vec<String> = split(raw.as_str(), Sep::Mark('|'));
    let ghost p = pieces(raw@, Sep::Mark('|'));
    proof {
        crate::text::pieces_not_empty(raw@, Sep::Mark('|'));
        assert(texts(parts@).len() == parts@.len());
    }
    assert(p[0] == parts@[0]@);
    let name: String = trimmed(parts[0].as_str());
    if name.as_str().is_empty() {
        return None;
    }
    let url: Option<String> = if parts.len() > 1 {
        assert(p[1] == parts@[1]@);
        let u: String = trimmed(parts[1].as_str());
        if u.as_str().is_empty() {
            None
        } else {
            Some(u)
        }
    } else {
        None
    };
    let aliases: Vec<String> = if parts.len() > 2 {
        assert(p[2] == parts@[2]@);
        without_empty(trim_all(&split(parts[2].as_str(), Sep::Mark(','))))
    } else {
        Vec::new()
    };
    let s: RadioStation = RadioStation { name, url, aliases };
    proof {
        let t = trimmed_all(p);
        assert(t[0] == name@);
        if parts@.len() > 1 {
            assert(t[1] == trim(p[1]));
        }
        if parts@.len() <= 2 {
            assert(s@.aliases =~= Seq::empty());
        }
        assert(s@ =~= station_entry(source@)->0);
    }
    Some(s)
}

/// Reads the stations that a list of settings describes.
pub fn parse_stations(raw: &Vec<String>) -> (r: Vec<RadioStation>)
    ensures
        stations(r@) == station_entries(texts(raw@)),
{
    let mut r: Vec<RadioStation> = Vec::new();
    let mut i: usize = 0;
    assert(stations(r@) =~= station_entries(texts(raw@).take(0)));
    while i < raw.len()
        invariant
            0 <= i <= raw@.len(),
            stations(r@) == station_entries(texts(raw@).take(i as int)),
        decreases raw@.len() - i,
    {
        let ghost done = r@;
        assert(texts(raw@).take(i + 1).drop_last() == texts(raw@).take(i as int));
        assert(texts(raw@).take(i + 1).last() == raw@[i as int]@);
        if let Some(s) = parse_station(raw[i].as_str()) {
            let ghost sv = s@;
            r.push(s);
            assert(stations(r@) =~= stations(done).push(sv));
        }
        i += 1;
    }
    assert(texts(raw@).take(i as int) == texts(raw@));
    r
}

/// The names of a list of stations.
pub open spec fn names_of(s: Seq<StationView>) -> Seq<Seq<char>> {
    Seq::new(s.len(), |i: int| s[i].name)
}

/// The names of a list of stations, with a comma between them.
pub fn favorite_names(v: &Vec<RadioStation>) -> (r: String)
    ensures
        r@ == crate::text::joined(names_of(stations(v@)), ", "@),
{
    let mut names: Vec<String> = Vec::new();
    let mut i: usize = 0;
    while i < v.len()
        invariant
            0 <= i <= v@.len(),
            texts(names@) == names_of(stations(v@)).take(i as int),
        decreases v@.len() - i,
    {
        let ghost done = names@;
        names.push(v[i].name.clone());
        i += 1;
        assert(texts(names@) =~= texts(done).push(v@[i - 1]@.name));
        assert(names_of(stations(v@)).take(i as int) =~= names_of(stations(v@)).take(i - 1).push(
            v@[i - 1]@.name,
        ));
    }
    assert(names_of(stations(v@)).take(i as int) =~= names_of(stations(v@)));
    crate::text::join(&names, ", ")
}

// ---------------------------------------------------------------- spelling

/// A lowered text with the spellings of one station made alike: `е` for `ё`, `fm` for `фм`.
pub open spec fn normal(low: Seq<char>) -> Seq<char> {
    replaced(swap_char(low, 'ё', 'е'), "фм"@, "fm"@)
}

/// `normalize_radio` on a text that is already lowered.
pub fn normalize_low(low: &str) -> (r: String)
    ensures
        r@ == normal(low@),
{
    let s: String = with_char(low, 'ё', 'е');
    proof {
        reveal_strlit("фм");
    }
    replace_all(s.as_str(), "фм", "fm")
}

/// In the normal spelling neither `ё` nor `фм` is left.
pub proof fn normal_has_one_spelling(low: Seq<char>)
    ensures
        !normal(low).contains('ё'),
        !occurs(normal(low), "фм"@),
{
    let s = swap_char(low, 'ё', 'е');
    reveal_strlit("фм");
    reveal_strlit("fm");
    replaced_is_gone(s, "фм"@, "fm"@);
    replaced_members(s, "фм"@, "fm"@);
    if normal(low).contains('ё') {
        let k = choose|k: int| 0 <= k < normal(low).len() && normal(low)[k] == 'ё';
        assert(s.contains(normal(low)[k]) || "fm"@.contains(normal(low)[k]));
    }
}

/// Bringing a text to its normal spelling a second time changes nothing.
pub proof fn normal_is_stable(low: Seq<char>)
    ensures
        normal(normal(low)) == normal(low),
{
    let n = normal(low);
    normal_has_one_spelling(low);
    assert forall|k: int| 0 <= k < n.len() implies n[k] != 'ё' by {
        assert(n.contains(n[k]));
    }
    assert(swap_char(n, 'ё', 'е') =~= n);
    find_is_first(n, "фм"@);
}

/// The normal spelling of a lowered text is in lower case.
proof fn normal_keeps_small(low: Seq<char>)
    requires
        forall|i: int| 0 <= i < low.len() ==> settled(#[trigger] low[i]),
    ensures
        forall|i: int|
            0 <= i < normal(low).len() ==> plain_small(#[trigger] normal(low)[i]) || settled(
                normal(low)[i],
            ),
{
    let s = swap_char(low, 'ё', 'е');
    reveal_strlit("fm");
    replaced_members(s, "фм"@, "fm"@);
    assert forall|i: int| 0 <= i < normal(low).len() implies plain_small(#[trigger] normal(low)[i])
        || settled(normal(low)[i]) by {
        let c = normal(low)[i];
        if s.contains(c) {
            let k = choose|k: int| 0 <= k < s.len() && s[k] == c;
            assert(settled(low[k]));
        } else {
            assert("fm"@.contains(c));
        }
    }
}

/// Lower case, with the spellings of one station made alike. Neither `ё` nor `фм` is left, and
/// doing it a second time changes nothing.
pub fn normalize_radio(s: &str) -> (r: String)
    ensures
        r@ == normal(lower(s@)),
        normal(lower(r@)) == r@,
        !r@.contains('ё'),
        !occurs(r@, "фм"@),
{
    let low: String = s.to_lowercase();
    let r: String = normalize_low(low.as_str());
    proof {
        normal_keeps_small(low@);
        normal_is_stable(low@);
        normal_has_one_spelling(low@);
    }
    // The spelling keeps lower case.
    r.as_str().to_lowercase()
}

/// A word without `fm` at its end.
pub open spec fn without_fm(w: Seq<char>) -> Seq<char> {
    if occurs_at(w, "fm"@, w.len() - "fm"@.len()) {
        w.take(w.len() - "fm"@.len())
    } else {
        w
    }
}

/// A word that many stations have in their names.
pub open spec fn generic(w: Seq<char>) -> bool {
    w == "fm"@ || w == "radio"@ || w == "радио"@ || w == "online"@ || w == "онлайн"@ || w == "the"@
        || w == "ua"@
}

/// The distinctive ones among the words `p`: without `fm` at their end, and without the words
/// that many stations have.
pub open spec fn core_of(p: Seq<Seq<char>>) -> Seq<Seq<char>>
    decreases p.len(),
{
    if p.len() == 0 {
        Seq::empty()
    } else {
        let before = core_of(p.drop_last());
        let w = without_fm(p.last());
        if w.len() == 0 || generic(w) {
            before
        } else {
            before.push(w)
        }
    }
}

/// The distinctive words of a station name in its normal spelling.
pub open spec fn core_words(name: Seq<char>) -> Seq<Seq<char>> {
    core_of(filled(pieces(name, Sep::Punct)))
}

fn is_generic(w: &str) -> (b: bool)
    ensures
        b == generic(w@),
{
    same(w, "fm") || same(w, "radio") || same(w, "радио") || same(w, "online") || same(w, "онлайн")
        || same(w, "the") || same(w, "ua")
}

fn drop_fm(w: &str) -> (r: String)
    ensures
        r@ == without_fm(w@),
{
    proof {
        reveal_strlit("fm");
    }
    if ends_with(w, "fm") {
        let n: usize = w.unicode_len();
        assert(w@.take(n - 2) == w@.subrange(0, n - 2));
        w.substring_char(0, n - 2).to_owned()
    } else {
        w.to_owned()
    }
}

/// `radio_core_words` on a name in its normal spelling.
pub fn core_words_of(name: &str) -> (r: Vec<String>)
    ensures
        texts(r@) == core_words(name@),
{
    let p: Vec<String> = without_empty(split(name, Sep::Punct));
    let mut r: Vec<String> = Vec::new();
    let mut i: usize = 0;
    assert(texts(r@) =~= core_of(texts(p@).take(0)));
    while i < p.len()
        invariant
            0 <= i <= p@.len(),
            texts(r@) == core_of(texts(p@).take(i as int)),
        decreases p@.len() - i,
    {
        let ghost done = r@;
        assert(texts(p@).take(i + 1).drop_last() == texts(p@).take(i as int));
        assert(texts(p@).take(i + 1).last() == p@[i as int]@);
        let w: String = drop_fm(p[i].as_str());
        let ghost wv = w@;
        if !w.as_str().is_empty() && !is_generic(w.as_str()) {
            r.push(w);
            assert(texts(r@) =~= texts(done).push(wv));
        }
        i += 1;
    }
    assert(texts(p@).take(i as int) == texts(p@));
    r
}

/// The distinctive words of a station name.
pub fn radio_core_words(name: &str) -> (r: Vec<String>)
    ensures
        texts(r@) == core_words(normal(lower(name@))),
{
    let n: String = normalize_radio(name);
    core_words_of(n.as_str())
}

// ---------------------------------------------------------------- which favorite is meant

/// How many of the texts `p` stand in `t`, empty ones not counted.
pub open spec fn count_named(t: Seq<char>, p: Seq<Seq<char>>) -> nat
    decreases p.len(),
{
    if p.len() == 0 {
        0
    } else {
        count_named(t, p.drop_last()) + if p.last().len() > 0 && occurs(t, p.last()) {
            1nat
        } else {
            0nat
        }
    }
}

/// Each of the texts in its normal spelling.
pub open spec fn normal_all(p: Seq<Seq<char>>) -> Seq<Seq<char>> {
    Seq::new(p.len(), |i: int| normal(lower(p[i])))
}

/// How well a station fits the phrase `t`: the distinctive words of its name and the aliases
/// that stand in it. A station without a pinned address does not fit.
pub open spec fn station_score(t: Seq<char>, s: StationView) -> nat {
    if s.url is Some {
        count_named(t, core_words(normal(lower(s.name)))) + count_named(t, normal_all(s.aliases))
    } else {
        0
    }
}

/// The scores of a list of stations.
pub open spec fn scores_of(t: Seq<char>, s: Seq<StationView>) -> Seq<nat> {
    Seq::new(s.len(), |i: int| station_score(t, s[i]))
}

/// The score at `i` is positive and greater than every other one.
pub open spec fn stands_out(scores: Seq<nat>, i: int) -> bool {
    &&& 0 <= i < scores.len()
    &&& scores[i] > 0
    &&& forall|j: int| 0 <= j < scores.len() && j != i ==> #[trigger] scores[j] < scores[i]
}

/// How many of `list` stand in `t`, empty ones not counted.
pub fn count_in(t: &str, list: &Vec<String>) -> (n: usize)
    ensures
        n == count_named(t@, texts(list@)),
        n <= list@.len(),
{
    let mut n: usize = 0;
    let mut i: usize = 0;
    while i < list.len()
        invariant
            0 <= i <= list@.len(),
            n <= i,
            n == count_named(t@, texts(list@).take(i as int)),
        decreases list@.len() - i,
    {
        assert(texts(list@).take(i + 1).drop_last() == texts(list@).take(i as int));
        assert(texts(list@).take(i + 1).last() == list@[i as int]@);
        if !list[i].as_str().is_empty() && has(t, list[i].as_str()) {
            n += 1;
        }
        i += 1;
    }
    assert(texts(list@).take(i as int) == texts(list@));
    n
}

fn normalize_all(v: &Vec<String>) -> (r: Vec<String>)
    ensures
        texts(r@) == normal_all(texts(v@)),
{
    let mut r: Vec<String> = Vec::new();
    let mut i: usize = 0;
    while i < v.len()
        invariant
            0 <= i <= v@.len(),
            texts(r@) == normal_all(texts(v@)).take(i as int),
        decreases v@.len() - i,
    {
        let ghost done = r@;
        r.push(normalize_radio(v[i].as_str()));
        i += 1;
        assert(texts(r@) =~= texts(done).push(normal(lower(v@[i - 1]@))));
        assert(normal_all(texts(v@)).take(i as int) =~= normal_all(texts(v@)).take(i - 1).push(
            normal(lower(v@[i - 1]@)),
        ));
    }
    assert(normal_all(texts(v@)).take(i as int) =~= normal_all(texts(v@)));
    r
}

/// How well a station fits a phrase in its normal spelling.
pub fn score(t: &str, s: &RadioStation) -> (n: u128)
    ensures
        n == station_score(t@, s@),
{
    if s.url.is_none() {
        return 0;
    }
    let core: Vec<String> = radio_core_words(s.name.as_str());
    let aliases: Vec<String> = normalize_all(&s.aliases);
    let a: usize = count_in(t, &core);
    let b: usize = count_in(t, &aliases);
    a as u128 + b as u128
}

/// The values of a list of scores.
pub open spec fn nats(v: Seq<u128>) -> Seq<nat> {
    Seq::new(v.len(), |i: int| v[i] as nat)
}

/// The position of the score that stands out; none where the greatest score is 0 or occurs
/// twice.
pub fn best_of(scores: &Vec<u128>) -> (r: Option<usize>)
    ensures
        match r {
            Some(i) => stands_out(nats(scores@), i as int),
            None => forall|i: int| !stands_out(nats(scores@), i),
        },
{
    let ghost all = nats(scores@);
    let mut best: Option<usize> = None;
    let mut tie: bool = false;
    let mut i: usize = 0;
    while i < scores.len()
        invariant
            0 <= i <= scores@.len(),
            all == nats(scores@),
            match best {
                Some(b) => {
                    &&& 0 <= b < i
                    &&& all[b as int] > 0
                    &&& forall|j: int| 0 <= j < i ==> #[trigger] all[j] <= all[b as int]
                    &&& tie == exists|j: int|
                        0 <= j < i && j != b && #[trigger] all[j] == all[b as int]
                },
                None => forall|j: int| 0 <= j < i ==> #[trigger] all[j] == 0,
            },
        decreases scores@.len() - i,
    {
        let s: u128 = scores[i];
        assert(all[i as int] == s);
        if s > 0 {
            match best {
                Some(b) => {
                    assert(all[b as int] == scores@[b as int]);
                    if s > scores[b] {
                        best = Some(i);
                        tie = false;
                    } else if s == scores[b] {
                        tie = true;
                    }
                },
                None => {
                    best = Some(i);
                    tie = false;
                },
            }
        }
        i += 1;
    }
    match best {
        Some(b) => if tie {
            assert forall|k: int| !stands_out(all, k) by {
                if stands_out(all, k) {
                    let j = choose|j: int|
                        0 <= j < all.len() && j != b && #[trigger] all[j] == all[b as int];
                    assert(all[j] == all[b as int]);
                    assert(k == b || all[b as int] < all[k]);
                    assert(k == j || all[j] < all[k]);
                }
            }
            None
        } else {
            assert(stands_out(all, b as int));
            Some(b)
        },
        None => {
            assert forall|k: int| !stands_out(all, k) by {
                if 0 <= k < all.len() {
                    assert(all[k] == 0);
                }
            }
            None
        },
    }
}

/// At most one station stands out.
pub proof fn one_stands_out(scores: Seq<nat>, i: int, j: int)
    requires
        stands_out(scores, i),
        stands_out(scores, j),
    ensures
        i == j,
{
}

/// The name and the address of the favorite that the phrase `t`, in its normal spelling, names
/// and no other favorite as well. The phrase must also speak of radio or of playing something.
pub open spec fn favorite_named(
    t: Seq<char>,
    s: Seq<StationView>,
) -> Option<(Seq<char>, Seq<char>)> {
    if radio_context_in(t) && exists|i: int| stands_out(scores_of(t, s), i) {
        let i = choose|i: int| stands_out(scores_of(t, s), i);
        Some((s[i].name, s[i].url->0))
    } else {
        None
    }
}

/// The texts of an optional pair of strings.
pub open spec fn opt_pair(p: Option<(String, String)>) -> Option<(Seq<char>, Seq<char>)> {
    match p {
        Some((a, b)) => Some((a@, b@)),
        None => None,
    }
}

/// A favorite that is named is one of the list, with its pinned address, and no other one fits
/// the phrase as well.
pub proof fn named_favorite_is_the_best(t: Seq<char>, s: Seq<StationView>, i: int)
    requires
        radio_context_in(t),
        stands_out(scores_of(t, s), i),
    ensures
        favorite_named(t, s) == Some((s[i].name, s[i].url->0)),
        s[i].url is Some,
        forall|j: int|
            0 <= j < s.len() && j != i ==> station_score(t, #[trigger] s[j]) < station_score(
                t,
                s[i],
            ),
{
    let k = choose|k: int| stands_out(scores_of(t, s), k);
    one_stands_out(scores_of(t, s), i, k);
    assert(scores_of(t, s)[i] > 0);
    assert forall|j: int| 0 <= j < s.len() && j != i implies station_score(t, #[trigger] s[j])
        < station_score(t, s[i]) by {
        assert(scores_of(t, s)[j] < scores_of(t, s)[i]);
    }
}

/// `match_favorite_radio` on a phrase in its normal spelling.
pub fn match_favorite(t: &str, favorites: &Vec<RadioStation>) -> (r: Option<(String, String)>)
    ensures
        opt_pair(r) == favorite_named(t@, stations(favorites@)),
{
    if !names_radio(t) {
        return None;
    }
    let mut scores: Vec<u128> = Vec::new();
    let mut i: usize = 0;
    while i < favorites.len()
        invariant
            0 <= i <= favorites@.len(),
            scores@.len() == i,
            forall|k: int|
                0 <= k < i ==> #[trigger] scores@[k] == station_score(t@, favorites@[k]@),
        decreases favorites@.len() - i,
    {
        scores.push(score(t, &favorites[i]));
        i += 1;
    }
    assert(nats(scores@) =~= scores_of(t@, stations(favorites@)));
    match best_of(&scores) {
        Some(b) => {
            let s: &RadioStation = &favorites[b];
            proof {
                named_favorite_is_the_best(t@, stations(favorites@), b as int);
            }
            match &s.url {
                Some(url) => Some((s.name.clone(), url.clone())),
                None => None,
            }
        },
        None => None,
    }
}

/// If the phrase names a pinned favorite and no other as well, gives its name and address. It
/// must also speak of radio or of playing something.
pub fn match_favorite_radio(transcript: &str, favorites: &Vec<RadioStation>) -> (r: Option<
    (String, String),
>)
    ensures
        opt_pair(r) == favorite_named(normal(lower(transcript@)), stations(favorites@)),
{
    let t: String = normalize_radio(transcript);
    match_favorite(t.as_str(), favorites)
}

// ---------------------------------------------------------------- where to find a stream

/// A station is asked for by `q`: the request stands in its name or the name in the request,
/// or so with an alias. All texts are lowered.
pub open spec fn asked_for(q: Seq<char>, name: Seq<char>, aliases: Seq<Seq<char>>) -> bool {
    ||| occurs(name, q)
    ||| occurs(q, name)
    ||| exists|i: int|
        0 <= i < aliases.len() && (#[trigger] aliases[i]).len() > 0 && (occurs(q, aliases[i])
            || occurs(aliases[i], q))
}

/// The pinned addresses of the stations that `q` asks for, in order.
pub open spec fn pinned(q: Seq<char>, s: Seq<StationView>) -> Seq<Seq<char>>
    decreases s.len(),
{
    if s.len() == 0 {
        Seq::empty()
    } else {
        let before = pinned(q, s.drop_last());
        match s.last().url {
            Some(url) => if asked_for(
                q,
                lower(s.last().name),
                lowered(s.last().aliases),
            ) {
                before.push(url)
            } else {
                before
            },
            None => before,
        }
    }
}

/// `p` without the members that equal the one before them.
pub open spec fn deduped(p: Seq<Seq<char>>) -> Seq<Seq<char>>
    decreases p.len(),
{
    if p.len() < 2 {
        p
    } else if p[p.len() - 1] == p[p.len() - 2] {
        deduped(p.drop_last())
    } else {
        deduped(p.drop_last()).push(p.last())
    }
}

/// The addresses to try for a request, in order: the one that the language model found, the
/// pinned ones of the favorites that the request asks for, and the one that the station
/// directory found. `q` is the request, trimmed and lowered.
pub open spec fn candidates(
    q: Seq<char>,
    found_by_model: Seq<char>,
    favorites: Seq<StationView>,
    found_in_directory: Option<Seq<char>>,
) -> Seq<Seq<char>> {
    let first = if occurs_at(trim(found_by_model), "http"@, 0) {
        seq![trim(found_by_model)]
    } else {
        Seq::empty()
    };
    let rest = if q.len() == 0 {
        Seq::empty()
    } else {
        pinned(q, favorites) + match found_in_directory {
            Some(u) => seq![u],
            None => Seq::empty(),
        }
    };
    deduped(first + rest)
}

/// True if `q` asks for a station of that name and those aliases. All texts are lowered.
pub fn is_asked_for(q: &str, name: &str, aliases: &Vec<String>) -> (b: bool)
    ensures
        b == asked_for(q@, name@, texts(aliases@)),
{
    if has(name, q) || has(q, name) {
        return true;
    }
    let mut i: usize = 0;
    while i < aliases.len()
        invariant
            0 <= i <= aliases@.len(),
            forall|k: int|
                0 <= k < i ==> !((#[trigger] texts(aliases@)[k]).len() > 0 && (occurs(
                    q@,
                    texts(aliases@)[k],
                ) || occurs(texts(aliases@)[k], q@))),
        decreases aliases@.len() - i,
    {
        let a: &str = aliases[i].as_str();
        assert(texts(aliases@)[i as int] == a@);
        if !a.is_empty() && (has(q, a) || has(a, q)) {
            return true;
        }
        i += 1;
    }
    assert(texts(aliases@).len() == aliases@.len());
    false
}

fn dedup(v: Vec<String>) -> (r: Vec<String>)
    ensures
        texts(r@) == deduped(texts(v@)),
{
    let mut r: Vec<String> = Vec::new();
    let mut i: usize = 0;
    while i < v.len()
        invariant
            0 <= i <= v@.len(),
            texts(r@) == deduped(texts(v@).take(i as int)),
        decreases v@.len() - i,
    {
        let ghost done = r@;
        let ghost p = texts(v@).take(i + 1);
        assert(p.drop_last() == texts(v@).take(i as int));
        assert(p.last() == v@[i as int]@);
        if i == 0 {
            r.push(v[i].clone());
            assert(texts(r@) =~= p);
        } else {
            assert(p[p.len() - 2] == v@[i - 1]@);
            if !same(v[i].as_str(), v[i - 1].as_str()) {
                r.push(v[i].clone());
                assert(texts(r@) =~= texts(done).push(v@[i as int]@));
            }
        }
        i += 1;
    }
    assert(texts(v@).take(i as int) == texts(v@));
    r
}

/// The pinned addresses of the favorites that the lowered request `q` asks for.
fn pinned_for(q: &str, favorites: &Vec<RadioStation>) -> (r: Vec<String>)
    ensures
        texts(r@) == pinned(q@, stations(favorites@)),
{
    let mut r: Vec<String> = Vec::new();
    let mut i: usize = 0;
    assert(texts(r@) =~= pinned(q@, stations(favorites@).take(0)));
    while i < favorites.len()
        invariant
            0 <= i <= favorites@.len(),
            texts(r@) == pinned(q@, stations(favorites@).take(i as int)),
        decreases favorites@.len() - i,
    {
        let ghost done = r@;
        assert(stations(favorites@).take(i + 1).drop_last() == stations(favorites@).take(i as int));
        assert(stations(favorites@).take(i + 1).last() == favorites@[i as int]@);
        let s: &RadioStation = &favorites[i];
        if let Some(url) = &s.url {
            let name: String = s.name.as_str().to_lowercase();
            let aliases: Vec<String> = lower_all(&s.aliases);
            if is_asked_for(q, name.as_str(), &aliases) {
                r.push(url.clone());
                assert(texts(r@) =~= texts(done).push(url@));
            }
        }
        i += 1;
    }
    assert(stations(favorites@).take(i as int) == stations(favorites@));
    r
}

/// `resolve_station` with the request already trimmed and lowered.
pub fn resolve_request(
    q: &str,
    brain_url: &str,
    favorites: &Vec<RadioStation>,
    found: Option<String>,
) -> (r: Vec<String>)
    ensures
        texts(r@) == candidates(q@, brain_url@, stations(favorites@), opt_text(found)),
{
    let mut v: Vec<String> = Vec::new();
    let bu: String = trimmed(brain_url);
    let ghost first = if occurs_at(bu@, "http"@, 0) {
        seq![bu@]
    } else {
        Seq::empty()
    };
    if begins_with(bu.as_str(), "http") {
        v.push(bu);
    }
    assert(texts(v@) =~= first);
    if !q.is_empty() {
        let ghost done = v@;
        let mut p: Vec<String> = pinned_for(q, favorites);
        let ghost pins = p@;
        v.append(&mut p);
        assert(texts(v@) =~= first + pinned(q@, stations(favorites@))) by {
            assert(texts(v@) =~= texts(done) + texts(pins));
        }
        if let Some(u) = found {
            let ghost so_far = v@;
            let ghost uv = u@;
            v.push(u);
            assert(texts(v@) =~= texts(so_far) + seq![uv]);
        }
        assert(texts(v@) =~= first + (pinned(q@, stations(favorites@)) + match opt_text(found) {
            Some(u) => seq![u],
            None => Seq::empty(),
        }));
    } else {
        assert(texts(v@) =~= first + Seq::empty());
    }
    dedup(v)
}

/// The addresses to probe for a request, in order of priority: the one that the language model
/// found, a pinned favorite, the one of the station directory. The first one that is live is
/// the one to play.
pub fn resolve_station(
    query: &str,
    brain_url: &str,
    favorites: &Vec<RadioStation>,
    found: Option<String>,
) -> (r: Vec<String>)
    ensures
        texts(r@) == candidates(
            lower(trim(query@)),
            brain_url@,
            stations(favorites@),
            opt_text(found),
        ),
{
    let query: String = trimmed(query);
    let q: String = query.as_str().to_lowercase();
    resolve_request(q.as_str(), brain_url, favorites, found)
}

/// The address that the language model found is probed first.
pub proof fn model_address_comes_first(
    q: Seq<char>,
    found_by_model: Seq<char>,
    favorites: Seq<StationView>,
    found_in_directory: Option<Seq<char>>,
)
    requires
        occurs_at(trim(found_by_model), "http"@, 0),
    ensures
        candidates(q, found_by_model, favorites, found_in_directory).len() > 0,
        candidates(q, found_by_model, favorites, found_in_directory)[0] == trim(found_by_model),
{
    let rest = if q.len() == 0 {
        Seq::empty()
    } else {
        pinned(q, favorites) + match found_in_directory {
            Some(u) => seq![u],
            None => Seq::empty(),
        }
    };
    dedup_keeps_first(seq![trim(found_by_model)] + rest);
}

proof fn dedup_keeps_first(p: Seq<Seq<char>>)
    ensures
        p.len() > 0 ==> deduped(p).len() > 0 && deduped(p)[0] == p[0],
    decreases p.len(),
{
    if p.len() >= 2 {
        dedup_keeps_first(p.drop_last());
    }
}

/// No address is probed twice in a row.
pub proof fn candidates_differ(p: Seq<Seq<char>>, i: int)
    requires
        0 < i < deduped(p).len(),
    ensures
        deduped(p)[i] != deduped(p)[i - 1],
    decreases p.len(),
{
    if p.len() >= 2 {
        let d = deduped(p.drop_last());
        dedup_keeps_last(p.drop_last());
        if i < d.len() {
            candidates_differ(p.drop_last(), i);
        }
    }
}

proof fn dedup_keeps_last(p: Seq<Seq<char>>)
    ensures
        p.len() > 0 ==> deduped(p).len() > 0 && deduped(p).last() == p.last(),
    decreases p.len(),
{
    if p.len() >= 2 {
        dedup_keeps_last(p.drop_last());
    }
}

// ---------------------------------------------------------------- probing

/// The first address that is live.
pub open spec fn first_live(
    p: Seq<Seq<char>>,
    live: spec_fn(Seq<char>) -> bool,
) -> Option<Seq<char>>
    decreases p.len(),
{
    if p.len() == 0 {
        None
    } else if live(p[0]) {
        Some(p[0])
    } else {
        first_live(p.drop_first(), live)
    }
}

/// The addresses that are still to be probed.
pub struct Probing {
    left: Vec<String>,
}

impl View for Probing {
    type V = Seq<Seq<char>>;

    closed spec fn view(&self) -> Seq<Seq<char>> {
        texts(self.left@)
    }
}

impl Probing {
    /// Starts to probe `left`, in order.
    pub fn new(left: Vec<String>) -> (p: Probing)
        ensures
            p@ == texts(left@),
    {
        Probing { left }
    }

    /// The address to probe next.
    pub fn next(&self) -> (r: Option<String>)
        ensures
            opt_text(r) == (if self@.len() == 0 {
                None
            } else {
                Some(self@[0])
            }),
    {
        if self.left.len() == 0 {
            None
        } else {
            assert(self@[0] == self.left@[0]@);
            Some(self.left[0].clone())
        }
    }

    /// Takes the outcome of the probe of the next address; gives that address where it is
    /// live, and goes on to the one after it where it is not.
    pub fn report(&mut self, live: bool) -> (r: Option<String>)
        requires
            old(self)@.len() > 0,
        ensures
            final(self)@ == old(self)@.drop_first(),
            opt_text(r) == (if live {
                Some(old(self)@[0])
            } else {
                None
            }),
            forall|f: spec_fn(Seq<char>) -> bool|
                live == f(old(self)@[0]) ==> #[trigger] first_live(old(self)@, f) == (if live {
                    opt_text(r)
                } else {
                    first_live(final(self)@, f)
                }),
    {
        assert(self@[0] == self.left@[0]@);
        let u: String = self.left.remove(0);
        assert(self@ =~= old(self)@.drop_first());
        if live {
            Some(u)
        } else {
            None
        }
    }
}

/// Probing one address after the other ends with the first one that is live: it is a
/// candidate, it is live, and no candidate before it is.
pub proof fn first_live_is_first(p: Seq<Seq<char>>, live: spec_fn(Seq<char>) -> bool)
    ensures
        match first_live(p, live) {
            Some(u) => live(u) && exists|i: int|
                0 <= i < p.len() && #[trigger] p[i] == u && forall|j: int|
                    0 <= j < i ==> !live(#[trigger] p[j]),
            None => forall|j: int| 0 <= j < p.len() ==> !live(#[trigger] p[j]),
        },
    decreases p.len(),
{
    if p.len() > 0 && !live(p[0]) {
        let rest = p.drop_first();
        first_live_is_first(rest, live);
        match first_live(rest, live) {
            Some(u) => {
                let i = choose|i: int|
                    0 <= i < rest.len() && #[trigger] rest[i] == u && forall|j: int|
                        0 <= j < i ==> !live(#[trigger] rest[j]);
                assert(p[i + 1] == u);
                assert forall|j: int| 0 <= j < i + 1 implies !live(#[trigger] p[j]) by {
                    if j > 0 {
                        assert(p[j] == rest[j - 1]);
                    }
                }
            },
            None => {
                assert forall|j: int| 0 <= j < p.len() implies !live(#[trigger] p[j]) by {
                    if j > 0 {
                        assert(p[j] == rest[j - 1]);
                    }
                }
            },
        }
    }
}

// ---------------------------------------------------------------- laws of candidates

proof fn dedup_keeps_members(p: Seq<Seq<char>>, u: Seq<char>)
    ensures
        deduped(p).contains(u) <==> p.contains(u),
    decreases p.len(),
{
    if p.len() >= 2 {
        let d = p.drop_last();
        dedup_keeps_members(d, u);
        if p.contains(u) {
            let k = choose|k: int| 0 <= k < p.len() && p[k] == u;
            if k < d.len() {
                assert(d[k] == u);
            } else if p[p.len() - 1] == p[p.len() - 2] {
                assert(d[p.len() - 2] == u);
            }
        }
        if d.contains(u) {
            let k = choose|k: int| 0 <= k < d.len() && d[k] == u;
            assert(p[k] == u);
        }
        if p[p.len() - 1] != p[p.len() - 2] {
            let q = deduped(d);
            assert(deduped(p) == q.push(p.last()));
            assert(deduped(p)[q.len() as int] == p.last());
            if q.contains(u) {
                let k = choose|k: int| 0 <= k < q.len() && q[k] == u;
                assert(deduped(p)[k] == u);
            }
            if deduped(p).contains(u) {
                let k = choose|k: int| 0 <= k < deduped(p).len() && deduped(p)[k] == u;
                if k < q.len() {
                    assert(q[k] == u);
                } else {
                    assert(p[p.len() - 1] == u);
                }
            }
        }
    }
}

/// The favorites are gone through in their order, each for itself, and one with a pinned address
/// counts where the request stands in its name, its name in the request, or so with an alias.
pub proof fn favorites_are_tried_in_order(
    q: Seq<char>,
    a: Seq<StationView>,
    b: Seq<StationView>,
    s: StationView,
)
    ensures
        pinned(q, a + b) == pinned(q, a) + pinned(q, b),
        s.url is None ==> pinned(q, seq![s]) == Seq::<Seq<char>>::empty(),
        s.url is Some && (occurs(lower(s.name), q) || occurs(q, lower(s.name)) || exists|k: int|
            0 <= k < s.aliases.len() && lower(#[trigger] s.aliases[k]).len() > 0 && (occurs(
                q,
                lower(s.aliases[k]),
            ) || occurs(lower(s.aliases[k]), q))) ==> pinned(q, seq![s]) == seq![s.url->0],
        !occurs(lower(s.name), q) && !occurs(q, lower(s.name)) && (forall|k: int|
            0 <= k < s.aliases.len() ==> lower(#[trigger] s.aliases[k]).len() == 0 || (!occurs(
                q,
                lower(s.aliases[k]),
            ) && !occurs(lower(s.aliases[k]), q))) ==> pinned(q, seq![s]) == Seq::<
            Seq<char>,
        >::empty(),
    decreases b.len(),
{
    if b.len() == 0 {
        assert(a + b =~= a);
        assert(pinned(q, a) + pinned(q, b) =~= pinned(q, a));
    } else {
        favorites_are_tried_in_order(q, a, b.drop_last(), s);
        assert((a + b).drop_last() =~= a + b.drop_last());
        assert(pinned(q, a + b) =~= pinned(q, a) + pinned(q, b));
    }
    let one = seq![s];
    assert(one.drop_last() =~= Seq::empty());
    assert(pinned(q, one.drop_last()) =~= Seq::empty());
    let low = lowered(s.aliases);
    assert forall|k: int| 0 <= k < s.aliases.len() implies #[trigger] low[k] == lower(
        s.aliases[k],
    ) by {
    }
    if exists|k: int|
        0 <= k < s.aliases.len() && lower(#[trigger] s.aliases[k]).len() > 0 && (occurs(
            q,
            lower(s.aliases[k]),
        ) || occurs(lower(s.aliases[k]), q)) {
        let k = choose|k: int|
            0 <= k < s.aliases.len() && lower(#[trigger] s.aliases[k]).len() > 0 && (occurs(
                q,
                lower(s.aliases[k]),
            ) || occurs(lower(s.aliases[k]), q));
        assert(low[k].len() > 0);
    }
    if s.url is Some {
        assert(Seq::<Seq<char>>::empty().push(s.url->0) =~= seq![s.url->0]);
    }
}

/// `q` asks for the station: it stands in the name or the name in it, or so with an alias.
pub open spec fn wanted(q: Seq<char>, s: StationView) -> bool {
    ||| occurs(lower(s.name), q)
    ||| occurs(q, lower(s.name))
    ||| exists|k: int|
        0 <= k < s.aliases.len() && lower(#[trigger] s.aliases[k]).len() > 0 && (occurs(
            q,
            lower(s.aliases[k]),
        ) || occurs(lower(s.aliases[k]), q))
}

proof fn wanted_is_pinned(q: Seq<char>, s: Seq<StationView>, i: int)
    requires
        0 <= i < s.len(),
        s[i].url is Some,
        wanted(q, s[i]),
    ensures
        pinned(q, s).contains(s[i].url->0),
{
    let a = s.take(i);
    let b = s.skip(i + 1);
    let one = seq![s[i]];
    favorites_are_tried_in_order(q, a, one, s[i]);
    favorites_are_tried_in_order(q, a + one, b, s[i]);
    assert(a + one + b =~= s);
    assert(pinned(q, s)[pinned(q, a).len() as int] == s[i].url->0);
}

proof fn pinned_is_wanted(q: Seq<char>, s: Seq<StationView>, u: Seq<char>)
    requires
        pinned(q, s).contains(u),
    ensures
        exists|i: int| 0 <= i < s.len() && (#[trigger] s[i]).url == Some(u) && wanted(q, s[i]),
    decreases s.len(),
{
    if s.len() > 0 {
        let d = s.drop_last();
        let last = s.last();
        favorites_are_tried_in_order(q, d, seq![last], last);
        assert(d + seq![last] =~= s);
        let one = pinned(q, seq![last]);
        let all = pinned(q, d) + one;
        let k = choose|k: int| 0 <= k < all.len() && all[k] == u;
        if k < pinned(q, d).len() {
            assert(pinned(q, d)[k] == u);
            pinned_is_wanted(q, d, u);
            let i = choose|i: int|
                0 <= i < d.len() && (#[trigger] d[i]).url == Some(u) && wanted(q, d[i]);
            assert(s[i] == d[i]);
        } else {
            assert(one[k - pinned(q, d).len()] == u);
            assert(s[s.len() - 1] == last);
            if !wanted(q, last) {
                assert(one =~= Seq::empty());
            }
        }
    }
}

/// For a named station every known address is tried, whatever the language model found: the
/// pinned ones of all favorites that the request asks for, and at last the one of the station
/// directory. So where the directory found an address there is something to try.
pub proof fn named_station_has_candidates(
    q: Seq<char>,
    found_by_model: Seq<char>,
    favorites: Seq<StationView>,
    found_in_directory: Option<Seq<char>>,
    i: int,
)
    requires
        q.len() > 0,
    ensures
        ({
            let c = candidates(q, found_by_model, favorites, found_in_directory);
            &&& 0 <= i < favorites.len() && favorites[i].url is Some && wanted(q, favorites[i])
                ==> c.contains(favorites[i].url->0)
            &&& found_in_directory matches Some(u) ==> c.len() > 0 && c.last() == u
        }),
{
    let first = if occurs_at(trim(found_by_model), "http"@, 0) {
        seq![trim(found_by_model)]
    } else {
        Seq::empty()
    };
    let tail = match found_in_directory {
        Some(u) => seq![u],
        None => Seq::empty(),
    };
    let all = first + (pinned(q, favorites) + tail);
    if 0 <= i < favorites.len() && favorites[i].url is Some && wanted(q, favorites[i]) {
        let u = favorites[i].url->0;
        wanted_is_pinned(q, favorites, i);
        let p = pinned(q, favorites);
        let k = choose|k: int| 0 <= k < p.len() && p[k] == u;
        assert(all[first.len() + k] == u);
        dedup_keeps_members(all, u);
    }
    if found_in_directory is Some {
        assert(all.last() == found_in_directory->0);
        dedup_keeps_last(all);
    }
}

/// Nothing else is tried: every candidate is the address that the model found, the pinned address
/// of a favorite that the request asks for, or the one of the directory. Without a station name
/// there is at most the address of the model.
pub proof fn only_known_addresses_are_tried(
    q: Seq<char>,
    found_by_model: Seq<char>,
    favorites: Seq<StationView>,
    found_in_directory: Option<Seq<char>>,
    u: Seq<char>,
)
    requires
        candidates(q, found_by_model, favorites, found_in_directory).contains(u),
    ensures
        (u == trim(found_by_model) && occurs_at(u, "http"@, 0)) || (q.len() > 0 && (
        found_in_directory == Some(u) || exists|i: int|
            0 <= i < favorites.len() && (#[trigger] favorites[i]).url == Some(u) && wanted(
                q,
                favorites[i],
            ))),
{
    let first = if occurs_at(trim(found_by_model), "http"@, 0) {
        seq![trim(found_by_model)]
    } else {
        Seq::empty()
    };
    let tail = match found_in_directory {
        Some(u) => seq![u],
        None => Seq::empty(),
    };
    let rest = if q.len() == 0 {
        Seq::empty()
    } else {
        pinned(q, favorites) + tail
    };
    let all = first + rest;
    dedup_keeps_members(all, u);
    let k = choose|k: int| 0 <= k < all.len() && all[k] == u;
    if k >= first.len() {
        let m = k - first.len();
        assert(rest[m] == u);
        if m < pinned(q, favorites).len() {
            assert(pinned(q, favorites)[m] == u);
            pinned_is_wanted(q, favorites, u);
        }
    }
}

/// The addresses are tried in this order: the one of the model, the pinned ones in the order of
/// the favorites, the one of the directory. Only an address right behind itself is left out.
pub proof fn candidates_keep_their_order(
    q: Seq<char>,
    model: Seq<char>,
    favorites: Seq<StationView>,
    directory: Seq<char>,
)
    requires
        q.len() > 0,
        occurs_at(trim(model), "http"@, 0),
        forall|i: int, j: int|
            0 <= i < j < pinned(q, favorites).len() ==> #[trigger] pinned(q, favorites)[i]
                != #[trigger] pinned(q, favorites)[j],
        !pinned(q, favorites).contains(trim(model)),
        !pinned(q, favorites).contains(directory),
        trim(model) != directory,
    ensures
        candidates(q, model, favorites, Some(directory)) == seq![trim(model)] + pinned(
            q,
            favorites,
        ) + seq![directory],
{
    let p = pinned(q, favorites);
    let all = seq![trim(model)] + (p + seq![directory]);
    assert(all =~= seq![trim(model)] + p + seq![directory]);
    assert forall|i: int| 0 < i < all.len() implies all[i] != #[trigger] all[i - 1] by {
        if i == 1 {
            if p.len() > 0 {
                assert(p.contains(p[0]));
            }
        } else if i <= p.len() {
            assert(p[i - 2] != p[i - 1]);
        } else {
            assert(p.contains(p[i - 2]));
        }
    }
    dedup_changes_nothing(all);
}

proof fn dedup_changes_nothing(p: Seq<Seq<char>>)
    requires
        forall|i: int| 0 < i < p.len() ==> p[i] != #[trigger] p[i - 1],
    ensures
        deduped(p) == p,
    decreases p.len(),
{
    if p.len() >= 2 {
        let d = p.drop_last();
        assert forall|i: int| 0 < i < d.len() implies d[i] != #[trigger] d[i - 1] by {
            assert(p[i] != p[i - 1]);
        }
        dedup_changes_nothing(d);
        let n = p.len() - 1;
        assert(p[n] != p[n - 1]);
        assert(d.push(p.last()) =~= p);
    }
}

// ---------------------------------------------------------------- laws of favorites

/// Words are counted one by one: one for each that is not empty and stands in the phrase.
pub proof fn names_are_counted(
    t: Seq<char>,
    a: Seq<Seq<char>>,
    b: Seq<Seq<char>>,
    w: Seq<char>,
)
    ensures
        count_named(t, a + b) == count_named(t, a) + count_named(t, b),
        count_named(t, seq![w]) == (if w.len() > 0 && occurs(t, w) {
            1nat
        } else {
            0nat
        }),
    decreases b.len(),
{
    assert(seq![w].drop_last() =~= Seq::empty());
    assert(count_named(t, seq![w].drop_last()) == 0);
    if b.len() == 0 {
        assert(a + b =~= a);
    } else {
        names_are_counted(t, a, b.drop_last(), w);
        assert((a + b).drop_last() =~= a + b.drop_last());
    }
}

/// The distinctive words of a name are found one by one: each word without `fm` at its end, and no
/// word that many stations have.
pub proof fn distinctive_words_are_kept(a: Seq<Seq<char>>, b: Seq<Seq<char>>, w: Seq<char>)
    ensures
        core_of(a + b) == core_of(a) + core_of(b),
        w.len() > 0 && !generic(w) && !occurs_at(w, "fm"@, w.len() - 2) ==> core_of(seq![w])
            == seq![w],
        w.len() > 0 && !generic(w) ==> core_of(seq![w + "fm"@]) == seq![w],
        core_of(seq!["fm"@]) == Seq::<Seq<char>>::empty(),
        core_of(seq!["radio"@]) == Seq::<Seq<char>>::empty(),
        core_of(seq!["радио"@]) == Seq::<Seq<char>>::empty(),
        core_of(seq!["online"@]) == Seq::<Seq<char>>::empty(),
        core_of(seq!["онлайн"@]) == Seq::<Seq<char>>::empty(),
        core_of(seq!["the"@]) == Seq::<Seq<char>>::empty(),
        core_of(seq!["ua"@]) == Seq::<Seq<char>>::empty(),
    decreases b.len(),
{
    if b.len() == 0 {
        assert(a + b =~= a);
        assert(core_of(a) + core_of(b) =~= core_of(a));
    } else {
        distinctive_words_are_kept(a, b.drop_last(), w);
        assert((a + b).drop_last() =~= a + b.drop_last());
        assert(core_of(a + b) =~= core_of(a) + core_of(b));
    }
    reveal_strlit("fm");
    single_core(w);
    single_core(w + "fm"@);
    single_core("fm"@);
    single_core("radio"@);
    single_core("радио"@);
    single_core("online"@);
    single_core("онлайн"@);
    single_core("the"@);
    single_core("ua"@);
    let f = w + "fm"@;
    assert(f.subrange(f.len() - 2, f.len() as int) =~= "fm"@);
    assert(f.take(f.len() - 2) =~= w);
    assert("fm"@.subrange(0, 2) =~= "fm"@);
    reveal_strlit("radio");
    reveal_strlit("радио");
    reveal_strlit("online");
    reveal_strlit("онлайн");
    reveal_strlit("the");
    reveal_strlit("ua");
    no_fm_at_the_end("radio"@, 'o');
    no_fm_at_the_end("радио"@, 'о');
    no_fm_at_the_end("online"@, 'e');
    no_fm_at_the_end("онлайн"@, 'н');
    no_fm_at_the_end("the"@, 'e');
    no_fm_at_the_end("ua"@, 'a');
}

proof fn no_fm_at_the_end(w: Seq<char>, c: char)
    requires
        w.len() >= 2,
        w.last() == c,
        c != 'm',
    ensures
        without_fm(w) == w,
{
    reveal_strlit("fm");
    if occurs_at(w, "fm"@, w.len() - 2) {
        assert(w.subrange(w.len() - 2, w.len() as int)[1] == w.last());
    }
}

proof fn single_core(w: Seq<char>)
    ensures
        core_of(seq![w]) == (if without_fm(w).len() == 0 || generic(without_fm(w)) {
            Seq::empty()
        } else {
            seq![without_fm(w)]
        }),
{
    assert(seq![w].drop_last() =~= Seq::empty());
    assert(core_of(seq![w].drop_last()) =~= Seq::empty());
    assert(Seq::<Seq<char>>::empty().push(without_fm(w)) =~= seq![without_fm(w)]);
}

/// A distinctive word of the name of the station, or an alias of it, stands in the phrase.
pub open spec fn station_is_named(t: Seq<char>, s: StationView) -> bool {
    ||| exists|k: int|
        0 <= k < core_words(normal(lower(s.name))).len() && (#[trigger] core_words(
            normal(lower(s.name)),
        )[k]).len() > 0 && occurs(t, core_words(normal(lower(s.name)))[k])
    ||| exists|k: int|
        0 <= k < s.aliases.len() && normal(lower(#[trigger] s.aliases[k])).len() > 0 && occurs(
            t,
            normal(lower(s.aliases[k])),
        )
}

proof fn counted_where_named(t: Seq<char>, p: Seq<Seq<char>>)
    ensures
        count_named(t, p) > 0 <==> exists|k: int|
            0 <= k < p.len() && (#[trigger] p[k]).len() > 0 && occurs(t, p[k]),
    decreases p.len(),
{
    if p.len() > 0 {
        let d = p.drop_last();
        counted_where_named(t, d);
        assert(p[p.len() - 1] == p.last());
        if exists|k: int| 0 <= k < d.len() && (#[trigger] d[k]).len() > 0 && occurs(t, d[k]) {
            let k = choose|k: int|
                0 <= k < d.len() && (#[trigger] d[k]).len() > 0 && occurs(t, d[k]);
            assert(p[k] == d[k]);
        }
        if exists|k: int| 0 <= k < p.len() && (#[trigger] p[k]).len() > 0 && occurs(t, p[k]) {
            let k = choose|k: int|
                0 <= k < p.len() && (#[trigger] p[k]).len() > 0 && occurs(t, p[k]);
            if k < d.len() {
                assert(d[k] == p[k]);
            }
        }
    }
}

proof fn scored_where_named(t: Seq<char>, s: StationView)
    ensures
        station_score(t, s) > 0 <==> s.url is Some && station_is_named(t, s),
{
    let core = core_words(normal(lower(s.name)));
    let aliases = normal_all(s.aliases);
    counted_where_named(t, core);
    counted_where_named(t, aliases);
    if exists|k: int|
        0 <= k < s.aliases.len() && normal(lower(#[trigger] s.aliases[k])).len() > 0 && occurs(
            t,
            normal(lower(s.aliases[k])),
        ) {
        let k = choose|k: int|
            0 <= k < s.aliases.len() && normal(lower(#[trigger] s.aliases[k])).len() > 0 && occurs(
                t,
                normal(lower(s.aliases[k])),
            );
        assert(aliases[k].len() > 0);
    }
    if exists|k: int|
        0 <= k < aliases.len() && (#[trigger] aliases[k]).len() > 0 && occurs(t, aliases[k]) {
        let k = choose|k: int|
            0 <= k < aliases.len() && (#[trigger] aliases[k]).len() > 0 && occurs(t, aliases[k]);
        assert(normal(lower(s.aliases[k])) == aliases[k]);
    }
}

/// A phrase about radio that names one pinned favorite, and no other, plays that favorite at once,
/// from its pinned address.
pub proof fn named_favorite_plays(t: Seq<char>, s: Seq<StationView>, i: int)
    requires
        radio_context_in(t),
        0 <= i < s.len(),
        s[i].url is Some,
        station_is_named(t, s[i]),
        forall|j: int|
            0 <= j < s.len() && j != i && (#[trigger] s[j]).url is Some ==> !station_is_named(
                t,
                s[j],
            ),
    ensures
        favorite_named(t, s) == Some((s[i].name, s[i].url->0)),
{
    let sc = scores_of(t, s);
    scored_where_named(t, s[i]);
    assert forall|j: int| 0 <= j < sc.len() && j != i implies #[trigger] sc[j] < sc[i] by {
        scored_where_named(t, s[j]);
    }
    assert(stands_out(sc, i));
    named_favorite_is_the_best(t, s, i);
}

/// No favorite plays where the phrase does not speak of radio, where it names no pinned one, or
/// where the two that it names best are named equally well.
pub proof fn unclear_phrase_plays_nothing(t: Seq<char>, s: Seq<StationView>, i: int, j: int)
    ensures
        !radio_context_in(t) ==> favorite_named(t, s) is None,
        (forall|k: int|
            0 <= k < s.len() && (#[trigger] s[k]).url is Some ==> !station_is_named(t, s[k]))
            ==> favorite_named(t, s) is None,
        0 <= i < j < s.len() && station_score(t, s[i]) == station_score(t, s[j]) && (forall|k: int|
            0 <= k < s.len() ==> station_score(t, #[trigger] s[k]) <= station_score(t, s[i]))
            ==> favorite_named(t, s) is None,
{
    let sc = scores_of(t, s);
    if forall|k: int|
        0 <= k < s.len() && (#[trigger] s[k]).url is Some ==> !station_is_named(t, s[k]) {
        assert forall|k: int| !stands_out(sc, k) by {
            if 0 <= k < s.len() {
                scored_where_named(t, s[k]);
                assert(sc[k] == 0);
            }
        }
    }
    if 0 <= i < j < s.len() && station_score(t, s[i]) == station_score(t, s[j]) && (forall|k: int|
        0 <= k < s.len() ==> station_score(t, #[trigger] s[k]) <= station_score(t, s[i])) {
        assert forall|k: int| !stands_out(sc, k) by {
            if stands_out(sc, k) {
                assert(sc[i] == sc[j]);
                assert(sc[k] <= sc[i]);
                if k != i {
                    assert(sc[i] < sc[k]);
                } else {
                    assert(sc[j] < sc[k]);
                }
            }
        }
    }
}

/// The two spellings of a letter and of the word for FM are made alike, and nothing else changes.
pub proof fn spellings_are_made_alike(a: Seq<char>, b: Seq<char>)
    ensures
        normal(swap_char(a, 'ё', 'е')) == normal(a),
        !a.contains('ё') && !occurs(a, "фм"@) ==> normal(a) == a,
        !a.contains('ё') && !occurs(a, "фм"@) ==> normal(a + "фм"@ + b) == a + "fm"@ + normal(b),
{
    assert(swap_char(swap_char(a, 'ё', 'е'), 'ё', 'е') =~= swap_char(a, 'ё', 'е'));
    if !a.contains('ё') && !occurs(a, "фм"@) {
        assert forall|k: int| 0 <= k < a.len() implies a[k] != 'ё' by {
            assert(a.contains(a[k]));
        }
        assert(swap_char(a, 'ё', 'е') =~= a);
        find_is_first(a, "фм"@);
        let c = swap_char(b, 'ё', 'е');
        reveal_strlit("фм");
        assert(swap_char(a + "фм"@ + b, 'ё', 'е') =~= a + "фм"@ + c);
        first_fm_is_replaced(a, c);
    }
}

proof fn first_fm_is_replaced(a: Seq<char>, c: Seq<char>)
    requires
        !occurs(a, "фм"@),
    ensures
        replaced(a + "фм"@ + c, "фм"@, "fm"@) == a + "fm"@ + replaced(c, "фм"@, "fm"@),
{
    reveal_strlit("фм");
    let w = "фм"@;
    let u = a + w + c;
    let n = a.len() as int;
    assert(u.subrange(n, n + 2) =~= w);
    assert(occurs_at(u, w, n));
    assert forall|j: int| 0 <= j < n implies !occurs_at(u, w, j) by {
        if occurs_at(u, w, j) {
            let v = u.subrange(j, j + 2);
            assert(v[1] == u[j + 1]);
            if j + 2 <= n {
                assert(a.subrange(j, j + 2) =~= v);
                assert(occurs_at(a, w, j));
            } else {
                assert(u[j + 1] == w[0]);
            }
        }
    }
    find_is_first(u, w);
    assert(u.take(n) =~= a);
    assert(u.skip(n + 2) =~= c);
}

// ---------------------------------------------------------------- laws of settings

proof fn holds_no(a: Seq<char>, c: char)
    ensures
        !a.contains(c) ==> forall|i: int|
            0 <= i < a.len() ==> !Sep::Mark(c).splits(#[trigger] a[i]),
{
    assert forall|i: int| 0 <= i < a.len() implies a.contains(#[trigger] a[i]) by {
    }
}

/// A setting with a name alone describes a station without an address; a blank setting describes
/// none.
pub proof fn name_alone_is_a_station(a: Seq<char>, name: Seq<char>, b: Seq<char>)
    requires
        all_white(a) && all_white(b),
        name.len() > 0 ==> !white_space(name.first()) && !white_space(name.last()),
        !name.contains('|'),
    ensures
        name.len() > 0 ==> station_entry(a + name + b) == Some(
            StationView { name, url: None, aliases: Seq::empty() },
        ),
        name.len() == 0 ==> station_entry(a + name + b) is None,
{
    trimming_takes_outer_space(a, name, b);
    holds_no(name, '|');
    unbroken_is_one_piece(name, Sep::Mark('|'));
    let parts = trimmed_all(pieces(name, Sep::Mark('|')));
    assert(parts.len() == 1 && parts[0] == name);
}

/// A setting with a name, a bar and an address describes a station with that address pinned,
/// whatever white space stands around the bar.
pub proof fn pinned_address_is_read(
    name: Seq<char>,
    a: Seq<char>,
    b: Seq<char>,
    url: Seq<char>,
)
    requires
        all_white(a) && all_white(b),
        name.len() > 0 && !white_space(name.first()) && !white_space(name.last()),
        url.len() > 0 && !white_space(url.first()) && !white_space(url.last()),
        !name.contains('|') && !url.contains('|'),
    ensures
        station_entry((name + a).push('|') + (b + url)) == Some(
            StationView { name, url: Some(url), aliases: Seq::empty() },
        ),
{
    let e = Seq::<char>::empty();
    let sep = Sep::Mark('|');
    let raw = (name + a).push('|') + (b + url);
    assert(raw.first() == name.first() && raw.last() == url.last());
    trimming_takes_outer_space(e, raw, e);
    white_holds_no_bar(a);
    white_holds_no_bar(b);
    trimming_takes_outer_space(e, name, a);
    trimming_takes_outer_space(b, url, e);
    assert(e + name + a =~= name + a);
    assert(b + url + e =~= b + url);
    assert(!(name + a).contains('|')) by {
        assert forall|i: int| 0 <= i < (name + a).len() implies (name + a)[i] != '|' by {
            if i < name.len() {
                assert(name.contains(name[i]));
            } else {
                assert(a.contains(a[i - name.len()]));
            }
        }
    }
    assert(!(b + url).contains('|')) by {
        assert forall|i: int| 0 <= i < (b + url).len() implies (b + url)[i] != '|' by {
            if i < b.len() {
                assert(b.contains(b[i]));
            } else {
                assert(url.contains(url[i - b.len()]));
            }
        }
    }
    two_parts(name + a, b + url, '|');
    let parts = trimmed_all(pieces(raw, sep));
    assert(parts.len() == 2 && parts[0] == name && parts[1] == url);
}

proof fn white_holds_no_bar(a: Seq<char>)
    requires
        all_white(a),
    ensures
        !a.contains('|') && !a.contains(','),
{
    assert forall|i: int| 0 <= i < a.len() implies a[i] != '|' && a[i] != ',' by {
        assert(white_space(a[i]));
    }
}

proof fn two_parts(a: Seq<char>, b: Seq<char>, c: char)
    ensures
        !a.contains(c) && !b.contains(c) ==> pieces(a.push(c) + b, Sep::Mark(c)) == seq![a, b],
{
    if !a.contains(c) && !b.contains(c) {
        let sep = Sep::Mark(c);
        holds_no(a, c);
        holds_no(b, c);
        unbroken_is_one_piece(a, sep);
        unbroken_is_one_piece(b, sep);
        separator_parts(a, c, b, sep);
        assert(seq![a] + seq![b] =~= seq![a, b]);
    }
}

/// A third part of the setting, behind a second bar, lists the further names of the station with
/// commas between them, in order.
pub proof fn aliases_are_read(name: Seq<char>, url: Seq<char>, list: Seq<Seq<char>>)
    requires
        name.len() > 0 && !white_space(name.first()) && !white_space(name.last()),
        url.len() > 0 && !white_space(url.first()) && !white_space(url.last()),
        !name.contains('|') && !url.contains('|'),
        list.len() > 0,
        forall|k: int|
            0 <= k < list.len() ==> !(#[trigger] list[k]).contains(',') && trim(list[k]).len() > 0,
        !joined(list, seq![',']).contains('|'),
        joined(list, seq![',']).len() > 0 && !white_space(joined(list, seq![',']).last()),
    ensures
        station_entry(name.push('|') + url.push('|') + joined(list, seq![','])) == Some(
            StationView { name, url: Some(url), aliases: trimmed_all(list) },
        ),
{
    let e = Seq::<char>::empty();
    let sep = Sep::Mark('|');
    let more = joined(list, seq![',']);
    let raw = name.push('|') + url.push('|') + more;
    assert(raw.first() == name.first() && raw.last() == more.last());
    trimming_takes_outer_space(e, raw, e);
    trimming_takes_outer_space(e, name, e);
    trimming_takes_outer_space(e, url, e);
    holds_no(more, '|');
    holds_no(name, '|');
    holds_no(url, '|');
    unbroken_is_one_piece(name, sep);
    unbroken_is_one_piece(url, sep);
    unbroken_is_one_piece(more, sep);
    separator_parts(url, '|', more, sep);
    separator_parts(name, '|', url.push('|') + more, sep);
    assert(raw =~= name.push('|') + (url.push('|') + more));
    let p = pieces(raw, sep);
    assert(p =~= seq![name, url, more]);
    splitting_undoes_joining(list, ',');
    let t = trimmed_all(list);
    assert forall|k: int| 0 <= k < t.len() implies (#[trigger] t[k]).len() > 0 by {
        assert(trim(list[k]).len() > 0);
    }
    nothing_is_empty(t);
    let parts = trimmed_all(p);
    assert(parts.len() == 3 && parts[0] == name && parts[1] == url);
}

proof fn nothing_is_empty(p: Seq<Seq<char>>)
    requires
        forall|k: int| 0 <= k < p.len() ==> (#[trigger] p[k]).len() > 0,
    ensures
        filled(p) == p,
    decreases p.len(),
{
    if p.len() > 0 {
        let d = p.drop_last();
        assert forall|k: int| 0 <= k < d.len() implies (#[trigger] d[k]).len() > 0 by {
            assert(p[k].len() > 0);
        }
        nothing_is_empty(d);
        assert(p[p.len() - 1].len() > 0);
        assert(d.push(p.last()) =~= p);
    }
}

/// The settings are read one by one, in order; those that describe no station are left out.
pub proof fn stations_are_read_in_order(a: Seq<Seq<char>>, b: Seq<Seq<char>>, raw: Seq<char>)
    ensures
        station_entries(a + b) == station_entries(a) + station_entries(b),
        station_entries(seq![raw]) == (match station_entry(raw) {
            Some(s) => seq![s],
            None => Seq::empty(),
        }),
    decreases b.len(),
{
    assert(seq![raw].drop_last() =~= Seq::empty());
    assert(station_entries(seq![raw].drop_last()) =~= Seq::empty());
    assert(station_entries(seq![raw]) =~= (match station_entry(raw) {
        Some(s) => seq![s],
        None => Seq::empty(),
    }));
    if b.len() == 0 {
        assert(a + b =~= a);
        assert(station_entries(a) + station_entries(b) =~= station_entries(a));
    } else {
        stations_are_read_in_order(a, b.drop_last(), raw);
        assert((a + b).drop_last() =~= a + b.drop_last());
        assert(station_entries(a + b) =~= station_entries(a) + station_entries(b));
    }
}

/// Every word of a name counts, wherever it stands in it: without `fm` at its end, and unless many
/// stations have it.
pub proof fn words_of_a_name_are_distinctive(name: Seq<char>, w: Seq<char>, i: int)
    requires
        stands_alone(name, w, i, Sep::Punct),
        forall|k: int| 0 <= k < w.len() ==> alphanumeric(#[trigger] w[k]),
        w.len() > 0,
        without_fm(w).len() > 0 && !generic(without_fm(w)),
    ensures
        core_words(name).contains(without_fm(w)),
{
    piece_between_separators(name, w, i, Sep::Punct);
    filled_members(pieces(name, Sep::Punct), w);
    let p = filled(pieces(name, Sep::Punct));
    let k = choose|k: int| 0 <= k < p.len() && p[k] == w;
    let a = p.take(k);
    let b = p.skip(k + 1);
    distinctive_words_are_kept(a, seq![w], w);
    distinctive_words_are_kept(a + seq![w], b, w);
    single_core(w);
    assert(a + seq![w] + b =~= p);
    assert(core_of(p)[core_of(a).len() as int] == without_fm(w));
}

/// The favorites are listed by their names, all of them and in order.
pub proof fn favorites_are_listed_by_name(s: Seq<StationView>, i: int)
    ensures
        names_of(s).len() == s.len(),
        0 <= i < s.len() ==> names_of(s)[i] == s[i].name,
{
}

} // verus!
