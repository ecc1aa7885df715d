//! Spoken volume commands.

use vstd::prelude::*;
use crate::phrases::{has_any_word, names_volume, said, volume_word_in, word_heard};
use crate::text::{
    chars_of, decimal, decimal_reads_back, digit, lower, number_of, occurs, occurs_at, read_number,
    str_texts,
};

verus! {

/// `t` from its first ASCII digit on.
pub open spec fn from_first_digit(t: Seq<char>) -> Seq<char>
    decreases t.len(),
{
    if t.len() == 0 || digit(t[0]) {
        t
    } else {
        from_first_digit(t.drop_first())
    }
}

/// The digits that `t` begins with.
pub open spec fn leading_digits(t: Seq<char>) -> Seq<char>
    decreases t.len(),
{
    if t.len() > 0 && digit(t[0]) {
        seq![t[0]] + leading_digits(t.drop_first())
    } else {
        Seq::empty()
    }
}

/// The number that the first run of digits of `t` writes, if it fits 32 bits.
pub open spec fn first_number(t: Seq<char>) -> Option<nat> {
    let d = leading_digits(from_first_digit(t));
    if d.len() > 0 && number_of(d) <= u32::MAX {
        Some(number_of(d))
    } else {
        None
    }
}

/// The number words, with the volume that each stands for.
pub open spec fn volume_words() -> Seq<(Seq<char>, u8)> {
    seq![
        ("hundred"@, 100u8), ("ninety"@, 90u8), ("eighty"@, 80u8), ("seventy"@, 70u8),
        ("sixty"@, 60u8), ("fifty"@, 50u8), ("forty"@, 40u8), ("thirty"@, 30u8),
        ("twenty"@, 20u8), ("ten"@, 10u8), ("zero"@, 0u8), ("mute"@, 0u8), ("max"@, 100u8),
        ("full"@, 100u8), ("min"@, 0u8), ("сто"@, 100u8), ("девяносто"@, 90u8),
        ("восемьдесят"@, 80u8), ("семьдесят"@, 70u8), ("шестьдесят"@, 60u8),
        ("пятьдесят"@, 50u8), ("сорок"@, 40u8), ("тридцать"@, 30u8), ("двадцать"@, 20u8),
        ("десять"@, 10u8), ("ноль"@, 0u8), ("максимум"@, 100u8), ("макс"@, 100u8),
    ]
}

/// The volume of the first entry of `table` that is a whole word of `t`.
pub open spec fn first_listed(t: Seq<char>, table: Seq<(Seq<char>, u8)>) -> Option<u8>
    decreases table.len(),
{
    if table.len() == 0 {
        None
    } else if has_any_word(t, seq![table[0].0]) {
        Some(table[0].1)
    } else {
        first_listed(t, table.drop_first())
    }
}

/// The volume that a command asks for: the first number in it, at most 100, or else the first
/// number word of the table. `t` is the lowered text of the command, and `again` is `t`
/// lowered once more.
pub open spec fn volume_asked(t: Seq<char>, again: Seq<char>) -> Option<u8> {
    if !volume_word_in(t) {
        None
    } else {
        match first_number(t) {
            Some(n) => Some(if n <= 100 {
                n as u8
            } else {
                100u8
            }),
            None => first_listed(again, volume_words()),
        }
    }
}

/// The first run of digits in `t`.
fn digits_in(t: &str) -> (r: Vec<char>)
    ensures
        r@ == leading_digits(from_first_digit(t@)),
        forall|i: int| 0 <= i < r@.len() ==> digit(#[trigger] r@[i]),
{
    let v: Vec<char> = chars_of(t);
    let n: usize = v.len();
    let mut i: usize = 0;
    assert(v@.skip(0) == v@);
    while i < n && !('0' <= v[i] && v[i] <= '9')
        invariant
            n == v@.len(),
            0 <= i <= n,
            from_first_digit(v@) == from_first_digit(v@.skip(i as int)),
        decreases n - i,
    {
        i += 1;
        assert(v@.skip(i - 1).drop_first() =~= v@.skip(i as int));
    }
    let ghost from = v@.skip(i as int);
    assert(from_first_digit(v@) == from);
    let mut r: Vec<char> = Vec::new();
    while i < n && '0' <= v[i] && v[i] <= '9'
        invariant
            n == v@.len(),
            0 <= i <= n,
            leading_digits(from) == r@ + leading_digits(v@.skip(i as int)),
            forall|k: int| 0 <= k < r@.len() ==> digit(#[trigger] r@[k]),
        decreases n - i,
    {
        let ghost done = r@;
        r.push(v[i]);
        i += 1;
        assert(v@.skip(i - 1).drop_first() =~= v@.skip(i as int));
        assert(r@ + leading_digits(v@.skip(i as int)) =~= done + leading_digits(v@.skip(i - 1)));
    }
    assert(leading_digits(v@.skip(i as int)) =~= Seq::<char>::empty());
    assert(r@ =~= leading_digits(from));
    r
}

/// The volume of the first number word of the table that is a whole word of the lowered text.
fn listed_volume(t: &str) -> (r: Option<u8>)
    ensures
        r == first_listed(t@, volume_words()),
        r is Some ==> r->0 <= 100,
{
    let table: [(&str, u8); 28] = [
        ("hundred", 100), ("ninety", 90), ("eighty", 80), ("seventy", 70), ("sixty", 60),
        ("fifty", 50), ("forty", 40), ("thirty", 30), ("twenty", 20), ("ten", 10),
        ("zero", 0), ("mute", 0), ("max", 100), ("full", 100), ("min", 0), ("сто", 100),
        ("девяносто", 90), ("восемьдесят", 80), ("семьдесят", 70), ("шестьдесят", 60),
        ("пятьдесят", 50), ("сорок", 40), ("тридцать", 30), ("двадцать", 20), ("десять", 10),
        ("ноль", 0), ("максимум", 100), ("макс", 100),
    ];
    let mut i: usize = 0;
    assert(volume_words().skip(0) =~= volume_words());
    while i < 28
        invariant
            0 <= i <= 28,
            volume_words().len() == 28,
            forall|k: int|
                0 <= k < 28 ==> (#[trigger] table@[k]).0@ == volume_words()[k].0 && table@[k].1
                    == volume_words()[k].1 && table@[k].1 <= 100,
            first_listed(t@, volume_words()) == first_listed(t@, volume_words().skip(i as int)),
        decreases 28 - i,
    {
        let (word, level): (&str, u8) = table[i];
        let one: [&str; 1] = [word];
        assert(table@[i as int] == (word, level));
        assert(str_texts(one@) =~= seq![volume_words().skip(i as int)[0].0]);
        if word_heard(t, &one) {
            return Some(level);
        }
        i += 1;
        assert(volume_words().skip(i - 1).drop_first() =~= volume_words().skip(i as int));
    }
    None
}

/// `parse_volume` on a text that is already lowered; `again` is that text lowered once more.
pub fn volume_heard(t: &str, again: &str) -> (r: Option<u8>)
    ensures
        r == volume_asked(t@, again@),
        r is Some ==> r->0 <= 100,
{
    if !names_volume(t) {
        return None;
    }
    let d: Vec<char> = digits_in(t);
    if d.len() > 0 {
        if let Some(n) = read_number(d.as_slice(), 0xffff_ffff) {
            if n <= 100 {
                return Some(n as u8);
            }
            return Some(100);
        }
    }
    listed_volume(again)
}

/// Recognizes a spoken volume command like "set volume 60" or "volume to eighty". Gives the
/// level, 0 to 100, if the transcript is a volume command.
pub fn parse_volume(transcript: &str) -> (r: Option<u8>)
    ensures
        r == volume_asked(lower(transcript@), lower(lower(transcript@))),
        r is Some ==> r->0 <= 100,
{
    let t: String = transcript.to_lowercase();
    let again: String = t.as_str().to_lowercase();
    volume_heard(t.as_str(), again.as_str())
}

/// A volume that is asked for is never above 100.
pub proof fn asked_volume_in_range(t: Seq<char>, again: Seq<char>)
    ensures
        volume_asked(t, again) is Some ==> volume_asked(t, again)->0 <= 100,
{
    listed_in_range(again, volume_words());
}

proof fn listed_in_range(t: Seq<char>, table: Seq<(Seq<char>, u8)>)
    requires
        forall|i: int| 0 <= i < table.len() ==> (#[trigger] table[i]).1 <= 100,
    ensures
        first_listed(t, table) is Some ==> first_listed(t, table)->0 <= 100,
    decreases table.len(),
{
    if table.len() > 0 {
        assert forall|i: int| 0 <= i < table.drop_first().len() implies (
        #[trigger] table.drop_first()[i]).1 <= 100 by {
            assert(table[i + 1].1 <= 100);
        }
        listed_in_range(t, table.drop_first());
    }
}

// ---------------------------------------------------------------- laws

proof fn digits_are_found(a: Seq<char>, d: Seq<char>, b: Seq<char>)
    requires
        forall|i: int| 0 <= i < a.len() ==> !digit(#[trigger] a[i]),
        d.len() > 0,
        forall|i: int| 0 <= i < d.len() ==> digit(#[trigger] d[i]),
    ensures
        from_first_digit(a + d + b) == d + b,
    decreases a.len(),
{
    let t = a + d + b;
    if a.len() == 0 {
        assert(t =~= d + b);
        assert(t[0] == d[0]);
    } else {
        assert(t[0] == a[0]);
        assert(t.drop_first() =~= a.drop_first() + d + b);
        assert forall|i: int| 0 <= i < a.drop_first().len() implies !digit(
            #[trigger] a.drop_first()[i],
        ) by {
            assert(!digit(a[i + 1]));
        }
        digits_are_found(a.drop_first(), d, b);
    }
}

proof fn digits_are_read(d: Seq<char>, b: Seq<char>)
    requires
        forall|i: int| 0 <= i < d.len() ==> digit(#[trigger] d[i]),
        b.len() == 0 || !digit(b[0]),
    ensures
        leading_digits(d + b) == d,
    decreases d.len(),
{
    if d.len() == 0 {
        assert(d + b =~= b);
        assert(leading_digits(b) =~= d);
    } else {
        let t = d + b;
        assert(t[0] == d[0]);
        assert(t.drop_first() =~= d.drop_first() + b);
        assert forall|i: int| 0 <= i < d.drop_first().len() implies digit(
            #[trigger] d.drop_first()[i],
        ) by {
            assert(digit(d[i + 1]));
        }
        digits_are_read(d.drop_first(), b);
        assert(seq![d[0]] + d.drop_first() =~= d);
    }
}

proof fn no_digits_are_found(t: Seq<char>)
    requires
        forall|i: int| 0 <= i < t.len() ==> !digit(#[trigger] t[i]),
    ensures
        from_first_digit(t).len() == 0,
    decreases t.len(),
{
    if t.len() > 0 {
        assert(!digit(t[0]));
        assert forall|i: int| 0 <= i < t.drop_first().len() implies !digit(
            #[trigger] t.drop_first()[i],
        ) by {
            assert(!digit(t[i + 1]));
        }
        no_digits_are_found(t.drop_first());
    }
}

/// A command that names the volume and writes a number in digits sets the volume to the first
/// number in it: to every level from 0 to 100 exactly, and to 100 where the number is greater.
pub proof fn first_number_sets_the_volume(
    a: Seq<char>,
    d: Seq<char>,
    b: Seq<char>,
    again: Seq<char>,
)
    requires
        forall|i: int| 0 <= i < a.len() ==> !digit(#[trigger] a[i]),
        d.len() > 0,
        forall|i: int| 0 <= i < d.len() ==> digit(#[trigger] d[i]),
        b.len() == 0 || !digit(b[0]),
        volume_word_in(a + d + b),
    ensures
        number_of(d) <= 100 ==> volume_asked(a + d + b, again) == Some(number_of(d) as u8),
        100 < number_of(d) <= u32::MAX ==> volume_asked(a + d + b, again) == Some(100u8),
        number_of(d) > u32::MAX ==> volume_asked(a + d + b, again) == first_listed(
            again,
            volume_words(),
        ),
{
    digits_are_found(a, d, b);
    digits_are_read(d, b);
}

/// "Volume" and a number in decimal digits, with any words around them that hold no digit before
/// the number, sets the volume to that number.
pub proof fn spoken_level_is_set(a: Seq<char>, n: nat, b: Seq<char>, again: Seq<char>)
    requires
        forall|i: int| 0 <= i < a.len() ==> !digit(#[trigger] a[i]),
        b.len() == 0 || !digit(b[0]),
    ensures
        n <= 100 ==> volume_asked(a + "volume "@ + decimal(n) + b, again) == Some(n as u8),
        100 < n <= u32::MAX ==> volume_asked(a + "volume "@ + decimal(n) + b, again) == Some(
            100u8,
        ),
{
    reveal_strlit("volume ");
    reveal_strlit("volume");
    decimal_reads_back(n);
    let head = a + "volume "@;
    let t = head + decimal(n) + b;
    assert forall|i: int| 0 <= i < head.len() implies !digit(#[trigger] head[i]) by {
        if i < a.len() {
            assert(!digit(a[i]));
        } else {
            assert(head[i] == "volume "@[i - a.len()]);
        }
    }
    assert(t.subrange(a.len() as int, a.len() as int + 6) =~= "volume"@);
    assert(occurs_at(t, "volume"@, a.len() as int));
    first_number_sets_the_volume(head, decimal(n), b, again);
}

/// A phrase that does not name the volume sets none, whatever numbers it holds.
pub proof fn only_volume_commands_set_it(t: Seq<char>, again: Seq<char>)
    requires
        !occurs(t, "volume"@) && !occurs(t, "vol "@) && !occurs(t, "мкост"@),
        !occurs(t, "звук"@) && !occurs(t, "громк"@) && !occurs(t, "гломк"@),
    ensures
        volume_asked(t, again) is None,
{
}

proof fn listed_where_said(t: Seq<char>, table: Seq<(Seq<char>, u8)>, level: u8)
    requires
        forall|i: int|
            0 <= i < table.len() && said(t, (#[trigger] table[i]).0) ==> table[i].1 == level,
    ensures
        first_listed(t, table) == (if exists|i: int|
            0 <= i < table.len() && said(t, (#[trigger] table[i]).0) {
            Some(level)
        } else {
            None
        }),
    decreases table.len(),
{
    if table.len() > 0 {
        let d = table.drop_first();
        assert forall|i: int| 0 <= i < d.len() && said(t, (#[trigger] d[i]).0) implies d[i].1
            == level by {
            assert(table[i + 1] == d[i]);
        }
        listed_where_said(t, d, level);
        if exists|i: int| 0 <= i < d.len() && said(t, (#[trigger] d[i]).0) {
            let i = choose|i: int| 0 <= i < d.len() && said(t, (#[trigger] d[i]).0);
            assert(said(t, table[i + 1].0));
        }
        if exists|i: int| 0 <= i < table.len() && said(t, (#[trigger] table[i]).0) && !said(
            t,
            table[0].0,
        ) {
            let i = choose|i: int|
                0 <= i < table.len() && said(t, (#[trigger] table[i]).0) && !said(t, table[0].0);
            assert(said(t, d[i - 1].0));
        }
    }
}

/// A word for the level is said, in English or Russian.
pub open spec fn level_said(t: Seq<char>, level: u8) -> bool {
    if level == 100 {
        said(t, "hundred"@) || said(t, "max"@) || said(t, "full"@) || said(t, "сто"@) || said(
            t,
            "максимум"@,
        ) || said(t, "макс"@)
    } else if level == 90 {
        said(t, "ninety"@) || said(t, "девяносто"@)
    } else if level == 80 {
        said(t, "eighty"@) || said(t, "восемьдесят"@)
    } else if level == 70 {
        said(t, "seventy"@) || said(t, "семьдесят"@)
    } else if level == 60 {
        said(t, "sixty"@) || said(t, "шестьдесят"@)
    } else if level == 50 {
        said(t, "fifty"@) || said(t, "пятьдесят"@)
    } else if level == 40 {
        said(t, "forty"@) || said(t, "сорок"@)
    } else if level == 30 {
        said(t, "thirty"@) || said(t, "тридцать"@)
    } else if level == 20 {
        said(t, "twenty"@) || said(t, "двадцать"@)
    } else if level == 10 {
        said(t, "ten"@) || said(t, "десять"@)
    } else if level == 0 {
        said(t, "zero"@) || said(t, "mute"@) || said(t, "min"@) || said(t, "ноль"@)
    } else {
        false
    }
}

/// A volume command without digits that says the words for one level, and for no other, sets the
/// volume to that level. One that says no level sets none.
pub proof fn level_words_set_the_volume(t: Seq<char>, again: Seq<char>, level: u8)
    requires
        volume_word_in(t),
        forall|i: int| 0 <= i < t.len() ==> !digit(#[trigger] t[i]),
        forall|other: u8| #[trigger] level_said(again, other) ==> other == level,
    ensures
        level_said(again, level) ==> volume_asked(t, again) == Some(level),
        !level_said(again, level) ==> volume_asked(t, again) is None,
{
    no_digits_are_found(t);
    assert(leading_digits(from_first_digit(t)).len() == 0);
    let table = volume_words();
    assert forall|i: int| 0 <= i < table.len() && said(again, (#[trigger] table[i]).0) implies
        level_said(again, table[i].1) by {
    }
    listed_where_said(again, table, level);
    if level_said(again, level) {
        word_is_listed(again, level);
    }
}

/// Every word for a level stands in the table, with that level.
proof fn word_is_listed(t: Seq<char>, level: u8)
    requires
        level_said(t, level),
    ensures
        exists|i: int| 0 <= i < volume_words().len() && said(t, (#[trigger] volume_words()[i]).0),
{
    let table = volume_words();
    assert(table[0] == ("hundred"@, 100u8));
    assert(table[1] == ("ninety"@, 90u8));
    assert(table[2] == ("eighty"@, 80u8));
    assert(table[3] == ("seventy"@, 70u8));
    assert(table[4] == ("sixty"@, 60u8));
    assert(table[5] == ("fifty"@, 50u8));
    assert(table[6] == ("forty"@, 40u8));
    assert(table[7] == ("thirty"@, 30u8));
    assert(table[8] == ("twenty"@, 20u8));
    assert(table[9] == ("ten"@, 10u8));
    assert(table[10] == ("zero"@, 0u8));
    assert(table[11] == ("mute"@, 0u8));
    assert(table[12] == ("max"@, 100u8));
    assert(table[13] == ("full"@, 100u8));
    assert(table[14] == ("min"@, 0u8));
    assert(table[15] == ("сто"@, 100u8));
    assert(table[16] == ("девяносто"@, 90u8));
    assert(table[17] == ("восемьдесят"@, 80u8));
    assert(table[18] == ("семьдесят"@, 70u8));
    assert(table[19] == ("шестьдесят"@, 60u8));
    assert(table[20] == ("пятьдесят"@, 50u8));
    assert(table[21] == ("сорок"@, 40u8));
    assert(table[22] == ("тридцать"@, 30u8));
    assert(table[23] == ("двадцать"@, 20u8));
    assert(table[24] == ("десять"@, 10u8));
    assert(table[25] == ("ноль"@, 0u8));
    assert(table[26] == ("максимум"@, 100u8));
    assert(table[27] == ("макс"@, 100u8));
}

/// Where several levels are said, the one whose word comes first in the table counts; a hundred
/// always does.
pub proof fn earlier_words_win(t: Seq<char>, i: int)
    ensures
        0 <= i < volume_words().len() && said(t, volume_words()[i].0) && (forall|k: int|
            0 <= k < i ==> !said(t, (#[trigger] volume_words()[k]).0)) ==> first_listed(
            t,
            volume_words(),
        ) == Some(volume_words()[i].1),
        said(t, "hundred"@) ==> first_listed(t, volume_words()) == Some(100u8),
{
    if 0 <= i < volume_words().len() && said(t, volume_words()[i].0) && (forall|k: int|
        0 <= k < i ==> !said(t, (#[trigger] volume_words()[k]).0)) {
        first_said_is_listed(t, volume_words(), i);
    }
    assert(volume_words()[0] == ("hundred"@, 100u8));
}

proof fn first_said_is_listed(t: Seq<char>, table: Seq<(Seq<char>, u8)>, i: int)
    requires
        0 <= i < table.len(),
        said(t, table[i].0),
        forall|k: int| 0 <= k < i ==> !said(t, (#[trigger] table[k]).0),
    ensures
        first_listed(t, table) == Some(table[i].1),
    decreases table.len(),
{
    if i > 0 {
        let d = table.drop_first();
        assert(!said(t, table[0].0));
        assert forall|k: int| 0 <= k < i - 1 implies !said(t, (#[trigger] d[k]).0) by {
            assert(!said(t, table[k + 1].0));
        }
        first_said_is_listed(t, d, i - 1);
    }
}

} // verus!
