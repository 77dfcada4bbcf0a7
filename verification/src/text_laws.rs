//! What holds of the text primitives as a whole.

use vstd::prelude::*;

use crate::text::{
    all_digits, blank, decimal, decimal_is_injective, decimal_reads_back, digits_value, find,
    is_digit, joined, lemma_find, non_blank, option_str_view, option_view, parsed_u64, trimmed,
    trimmed_end, trimmed_start, unsigned_digits, views, white_space, without_prefix,
    without_trailing,
};

verus! {

/// The white space characters are these and no others.
pub proof fn white_space_characters(c: char)
    ensures
        white_space(c) <==> seq![
            '\u{9}', '\u{A}', '\u{B}', '\u{C}', '\u{D}', '\u{20}', '\u{85}', '\u{A0}',
            '\u{1680}', '\u{2000}', '\u{2001}', '\u{2002}', '\u{2003}', '\u{2004}', '\u{2005}',
            '\u{2006}', '\u{2007}', '\u{2008}', '\u{2009}', '\u{200A}', '\u{2028}', '\u{2029}',
            '\u{202F}', '\u{205F}', '\u{3000}',
        ].contains(c),
{
    let list = seq![
        '\u{9}', '\u{A}', '\u{B}', '\u{C}', '\u{D}', '\u{20}', '\u{85}', '\u{A0}', '\u{1680}',
        '\u{2000}', '\u{2001}', '\u{2002}', '\u{2003}', '\u{2004}', '\u{2005}', '\u{2006}',
        '\u{2007}', '\u{2008}', '\u{2009}', '\u{200A}', '\u{2028}', '\u{2029}', '\u{202F}',
        '\u{205F}', '\u{3000}',
    ];
    let n = c as int;
    if white_space(c) {
        let i = if n <= 0xD {
            n - 0x9
        } else if n == 0x20 {
            5
        } else if n == 0x85 {
            6
        } else if n == 0xA0 {
            7
        } else if n == 0x1680 {
            8
        } else if n <= 0x200A {
            9 + (n - 0x2000)
        } else if n == 0x2028 {
            20
        } else if n == 0x2029 {
            21
        } else if n == 0x202F {
            22
        } else if n == 0x205F {
            23
        } else {
            24int
        };
        assert(list[i] == c);
    }
    if list.contains(c) {
        let i = choose|i: int| 0 <= i < list.len() && list[i] == c;
        assert(white_space(list[i]));
    }
}

/// Nothing is blank, one character is blank where it is white space, and two texts
/// are blank together where each of them is.
pub proof fn blank_goes_by_characters(a: Seq<char>, b: Seq<char>, c: char)
    ensures
        blank(Seq::<char>::empty()),
        blank(seq![c]) <==> white_space(c),
        blank(a + b) <==> blank(a) && blank(b),
        blank(a) <==> forall|i: int| 0 <= i < a.len() ==> white_space(#[trigger] a[i]),
{
    if blank(seq![c]) {
        assert(white_space(seq![c][0]));
    }
    if blank(a + b) {
        assert forall|i: int| 0 <= i < a.len() implies white_space(#[trigger] a[i]) by {
            assert((a + b)[i] == a[i]);
        }
        assert forall|i: int| 0 <= i < b.len() implies white_space(#[trigger] b[i]) by {
            assert((a + b)[a.len() + i] == b[i]);
        }
    }
    if blank(a) && blank(b) {
        assert forall|i: int| 0 <= i < (a + b).len() implies white_space(#[trigger] (a + b)[i]) by {
            if i < a.len() {
                assert(white_space(a[i]));
            } else {
                assert(white_space(b[i - a.len()]));
            }
        }
    }
}

proof fn lemma_trimmed_start(before: Seq<char>, s: Seq<char>)
    requires
        forall|i: int| 0 <= i < before.len() ==> white_space(#[trigger] before[i]),
        s.len() > 0 ==> !white_space(s[0]),
    ensures
        trimmed_start(before + s) == s,
    decreases before.len(),
{
    let all = before + s;
    if before.len() > 0 {
        assert(all[0] == before[0]);
        assert(all.skip(1) =~= before.skip(1) + s);
        assert forall|i: int| 0 <= i < before.skip(1).len() implies white_space(
            #[trigger] before.skip(1)[i],
        ) by {
            assert(white_space(before[i + 1]));
        }
        lemma_trimmed_start(before.skip(1), s);
    } else {
        assert(all =~= s);
    }
}

proof fn lemma_trimmed_end(s: Seq<char>, behind: Seq<char>)
    requires
        forall|i: int| 0 <= i < behind.len() ==> white_space(#[trigger] behind[i]),
        s.len() > 0 ==> !white_space(s[s.len() - 1]),
    ensures
        trimmed_end(s + behind) == s,
    decreases behind.len(),
{
    let all = s + behind;
    if behind.len() > 0 {
        let n = behind.len() - 1;
        assert(all[all.len() - 1] == behind[n]);
        assert(all.take(all.len() - 1) =~= s + behind.take(n));
        assert forall|i: int| 0 <= i < behind.take(n).len() implies white_space(
            #[trigger] behind.take(n)[i],
        ) by {
            assert(white_space(behind[i]));
        }
        lemma_trimmed_end(s, behind.take(n));
    } else {
        assert(all =~= s);
    }
}

/// White space around a text that neither begins nor ends with white space is taken
/// off, and nothing else.
pub proof fn trimming_takes_off_what_is_around(before: Seq<char>, s: Seq<char>, behind: Seq<char>)
    requires
        forall|i: int| 0 <= i < before.len() ==> white_space(#[trigger] before[i]),
        forall|i: int| 0 <= i < behind.len() ==> white_space(#[trigger] behind[i]),
        s.len() > 0 ==> !white_space(s[0]) && !white_space(s[s.len() - 1]),
    ensures
        trimmed(before + s + behind) == s,
{
    if s.len() > 0 {
        let tail = s + behind;
        assert(before + s + behind =~= before + tail);
        lemma_trimmed_start(before, tail);
        lemma_trimmed_end(s, behind);
    } else {
        let all = before + s + behind;
        assert forall|i: int| 0 <= i < all.len() implies white_space(#[trigger] all[i]) by {
            if i < before.len() {
                assert(white_space(before[i]));
            } else {
                assert(white_space(behind[i - before.len()]));
            }
        }
        assert(all + Seq::<char>::empty() =~= all);
        lemma_trimmed_start(all, Seq::empty());
        assert(s =~= Seq::<char>::empty());
    }
}

proof fn lemma_trimmed_start_splits(s: Seq<char>) -> (before: Seq<char>)
    ensures
        forall|i: int| 0 <= i < before.len() ==> white_space(#[trigger] before[i]),
        s == before + trimmed_start(s),
        trimmed_start(s).len() > 0 ==> !white_space(trimmed_start(s)[0]),
    decreases s.len(),
{
    if s.len() > 0 && white_space(s[0]) {
        let shorter = lemma_trimmed_start_splits(s.skip(1));
        let before = seq![s[0]] + shorter;
        assert(s =~= before + trimmed_start(s)) by {
            assert(s =~= seq![s[0]] + s.skip(1));
        }
        assert forall|i: int| 0 <= i < before.len() implies white_space(#[trigger] before[i]) by {
            if i > 0 {
                assert(before[i] == shorter[i - 1]);
            }
        }
        before
    } else {
        assert(s =~= Seq::<char>::empty() + s);
        Seq::empty()
    }
}

proof fn lemma_trimmed_end_splits(s: Seq<char>) -> (behind: Seq<char>)
    ensures
        forall|i: int| 0 <= i < behind.len() ==> white_space(#[trigger] behind[i]),
        s == trimmed_end(s) + behind,
        trimmed_end(s).len() > 0 ==> !white_space(trimmed_end(s)[trimmed_end(s).len() - 1]),
    decreases s.len(),
{
    if s.len() > 0 && white_space(s[s.len() - 1]) {
        let shorter = lemma_trimmed_end_splits(s.take(s.len() - 1));
        let behind = shorter.push(s[s.len() - 1]);
        assert(s =~= trimmed_end(s) + behind) by {
            assert(s =~= s.take(s.len() - 1).push(s[s.len() - 1]));
        }
        assert forall|i: int| 0 <= i < behind.len() implies white_space(#[trigger] behind[i]) by {
            if i < shorter.len() {
                assert(behind[i] == shorter[i]);
            }
        }
        behind
    } else {
        assert(s =~= s + Seq::<char>::empty());
        Seq::empty()
    }
}

/// What is left of a text once trimmed stands in it with nothing but white space
/// around, and neither begins nor ends with white space.
pub proof fn trimmed_text_stands_in_the_text(s: Seq<char>)
    ensures
        exists|before: Seq<char>, behind: Seq<char>|
            s == #[trigger] (before + trimmed(s) + behind) && (forall|i: int|
                0 <= i < before.len() ==> white_space(#[trigger] before[i])) && (forall|i: int|
                0 <= i < behind.len() ==> white_space(#[trigger] behind[i])),
        trimmed(s).len() > 0 ==> !white_space(trimmed(s)[0]) && !white_space(
            trimmed(s)[trimmed(s).len() - 1],
        ),
{
    let before = lemma_trimmed_start_splits(s);
    let middle = trimmed_start(s);
    let behind = lemma_trimmed_end_splits(middle);
    let kept = trimmed(s);
    assert(s =~= before + kept + behind);
    if kept.len() > 0 {
        assert(middle[0] == kept[0]);
    }
}

/// Once trimmed, a text stays as it is.
pub proof fn trimming_again_changes_nothing(s: Seq<char>)
    ensures
        trimmed(trimmed(s)) == trimmed(s),
{
    trimmed_text_stands_in_the_text(s);
    let none = Seq::<char>::empty();
    trimming_takes_off_what_is_around(none, trimmed(s), none);
    assert(none + trimmed(s) + none =~= trimmed(s));
}

/// Trimming leaves nothing exactly of a blank text.
pub proof fn only_blank_text_is_trimmed_away(s: Seq<char>)
    ensures
        trimmed(s).len() == 0 <==> forall|i: int| 0 <= i < s.len() ==> white_space(#[trigger] s[i]),
{
    let before = lemma_trimmed_start_splits(s);
    let middle = trimmed_start(s);
    let behind = lemma_trimmed_end_splits(middle);
    let kept = trimmed(s);
    assert(s =~= before + kept + behind);
    if kept.len() == 0 {
        assert forall|i: int| 0 <= i < s.len() implies white_space(#[trigger] s[i]) by {
            if i < before.len() {
                assert(s[i] == before[i]);
            } else {
                assert(s[i] == behind[i - before.len()]);
            }
        }
    } else {
        assert(s[before.len() as int] == kept[0]);
        trimmed_text_stands_in_the_text(s);
    }
}

/// The search for a character ends at the first place that holds it, at or after
/// where it started, and finds nothing exactly where there is no such place.
pub proof fn search_ends_at_the_first_place(s: Seq<char>, c: char, from: int, i: int)
    requires
        0 <= from,
    ensures
        find(s, c, from) == Some(i) <==> {
            &&& from <= i < s.len()
            &&& s[i] == c
            &&& forall|j: int| from <= j < i ==> s[j] != c
        },
        find(s, c, from) is None <==> forall|j: int| from <= j < s.len() ==> s[j] != c,
{
    lemma_find(s, c, from);
}

/// A prefix is taken off exactly where the text is the prefix and something behind it.
pub proof fn prefix_comes_off_its_text(s: Seq<char>, prefix: Seq<char>, rest: Seq<char>)
    ensures
        without_prefix(prefix + rest, prefix) == Some(rest),
        without_prefix(s, prefix) == Some(rest) <==> s == prefix + rest,
        without_prefix(s, prefix) is None <==> forall|r: Seq<char>| s != #[trigger] (prefix + r),
{
    let whole = prefix + rest;
    assert(whole.subrange(0, prefix.len() as int) =~= prefix);
    assert(whole.skip(prefix.len() as int) =~= rest);
    if prefix.is_prefix_of(s) {
        let r = s.skip(prefix.len() as int);
        assert(s =~= prefix + r);
    } else {
        assert forall|r: Seq<char>| s != #[trigger] (prefix + r) by {
            if s == prefix + r {
                assert(s.subrange(0, prefix.len() as int) =~= prefix);
            }
        }
    }
}

/// Characters `c` behind a text that does not end with one are taken off, all of them
/// and nothing else.
pub proof fn trailing_characters_come_off(s: Seq<char>, c: char, behind: Seq<char>)
    requires
        s.len() > 0 ==> s[s.len() - 1] != c,
        forall|i: int| 0 <= i < behind.len() ==> #[trigger] behind[i] == c,
    ensures
        without_trailing(s + behind, c) == s,
    decreases behind.len(),
{
    let all = s + behind;
    if behind.len() > 0 {
        let n = behind.len() - 1;
        assert(all[all.len() - 1] == behind[n]);
        assert(all.take(all.len() - 1) =~= s + behind.take(n));
        assert forall|i: int| 0 <= i < behind.take(n).len() implies #[trigger] behind.take(n)[i]
            == c by {
            assert(behind[i] == c);
        }
        trailing_characters_come_off(s, c, behind.take(n));
    } else {
        assert(all =~= s);
    }
}

/// Below ten a number is one digit; from ten on it is the number without its last
/// digit and then that digit.
pub proof fn decimal_ends_in_the_last_digit(n: nat, d: nat)
    requires
        d < 10,
    ensures
        decimal(d) == seq![('0' as u32 + d) as char],
        n > 0 ==> decimal(10 * n + d) == decimal(n).push(('0' as u32 + d) as char),
{
    if n > 0 {
        assert((10 * n + d) / 10 == n);
        assert((10 * n + d) % 10 == d);
    }
}

/// A further digit makes ten times the number and the digit of it.
pub proof fn digits_count_by_tens(s: Seq<char>, c: char)
    requires
        '0' as u32 <= c as u32 <= '9' as u32,
    ensures
        digits_value(Seq::<char>::empty()) == 0,
        digits_value(s.push(c)) == 10 * digits_value(s) + (c as u32 - '0' as u32),
{
    let more = s.push(c);
    assert(more.take(more.len() - 1) =~= s);
}

/// A number is read from digits, which one `+` may precede, and from nothing else.
pub proof fn only_digits_are_read(s: Seq<char>)
    ensures
        parsed_u64(s) is Some ==> {
            &&& s.len() > 0
            &&& forall|i: int|
                0 <= i < s.len() ==> '0' as u32 <= (#[trigger] s[i]) as u32 <= '9' as u32 || (i == 0
                    && s[i] == '+' && s.len() > 1)
        },
        parsed_u64(Seq::<char>::empty()) is None,
{
    if parsed_u64(s) is Some {
        let digits = unsigned_digits(s);
        assert forall|i: int| 0 <= i < s.len() implies '0' as u32 <= (#[trigger] s[i]) as u32
            <= '9' as u32 || (i == 0 && s[i] == '+' && s.len() > 1) by {
            if s[0] == '+' {
                if i > 0 {
                    assert(is_digit(digits[i - 1]));
                }
            } else {
                assert(is_digit(digits[i]));
            }
        }
    }
}

/// Digits are read as the number they stand for where a `u64` holds it, also with a
/// `+` in front.
pub proof fn digits_are_read_as_their_number(digits: Seq<char>)
    requires
        digits.len() > 0,
        forall|i: int|
            0 <= i < digits.len() ==> '0' as u32 <= (#[trigger] digits[i]) as u32 <= '9' as u32,
    ensures
        parsed_u64(digits) == if digits_value(digits) <= u64::MAX {
            Some(digits_value(digits) as u64)
        } else {
            None
        },
        parsed_u64(seq!['+'] + digits) == parsed_u64(digits),
{
    assert(all_digits(digits)) by {
        assert forall|i: int| 0 <= i < digits.len() implies is_digit(#[trigger] digits[i]) by {
            assert('0' as u32 <= digits[i] as u32 <= '9' as u32);
        }
    }
    assert('0' as u32 <= digits[0] as u32 <= '9' as u32);
    assert(digits[0] != '+');
    let signed = seq!['+'] + digits;
    assert(signed.skip(1) =~= digits);
}

/// A number written out and read again is itself, and no other number is written so.
pub proof fn written_number_is_its_own(m: u64, n: u64)
    ensures
        parsed_u64(decimal(n as nat)) == Some(n),
        parsed_u64(seq!['+'] + decimal(n as nat)) == Some(n),
        decimal(m as nat) == decimal(n as nat) ==> m == n,
{
    decimal_reads_back(n);
    decimal_is_injective(m as nat, n as nat);
    only_digits_are_read(decimal(n as nat));
    let s = decimal(n as nat);
    let plain = unsigned_digits(s);
    assert(s[0] != '+') by {
        lemma_decimal_begins_with_a_digit(n as nat);
    }
    assert((seq!['+'] + s).skip(1) =~= s);
}

proof fn lemma_decimal_begins_with_a_digit(n: nat)
    ensures
        decimal(n).len() > 0,
        is_digit(decimal(n)[0]),
    decreases n,
{
    if n >= 10 {
        lemma_decimal_begins_with_a_digit(n / 10);
        assert(decimal(n)[0] == decimal(n / 10)[0]);
    }
}

/// Joining nothing gives nothing, joining one item gives it, and a further item comes
/// behind a separator.
pub proof fn items_are_joined_one_behind_the_other(
    list: Seq<Seq<char>>,
    item: Seq<char>,
    separator: Seq<char>,
)
    ensures
        joined(Seq::<Seq<char>>::empty(), separator) == Seq::<char>::empty(),
        joined(seq![item], separator) == item,
        list.len() > 0 ==> joined(list.push(item), separator) == joined(list, separator)
            + separator + item,
{
    let more = list.push(item);
    assert(more.take(more.len() - 1) =~= list);
}

/// A value counts unless it is missing or holds white space only.
pub proof fn value_counts_unless_blank(text: Seq<char>)
    ensures
        non_blank(None) is None,
        (forall|i: int| 0 <= i < text.len() ==> white_space(#[trigger] text[i])) ==> non_blank(
            Some(text),
        ) is None,
        !(forall|i: int| 0 <= i < text.len() ==> white_space(#[trigger] text[i])) ==> non_blank(
            Some(text),
        ) == Some(text),
{
}

/// The model of a list of strings holds the text of each, in order, and the model of
/// an optional string its text.
pub proof fn strings_are_modelled_by_their_text(list: Seq<String>, s: String, t: &str)
    ensures
        views(list).len() == list.len(),
        forall|i: int| 0 <= i < list.len() ==> #[trigger] views(list)[i] == list[i]@,
        option_view(Some(s)) == Some(s@),
        option_view(None) is None,
        option_str_view(Some(t)) == Some(t@),
        option_str_view(None) is None,
{
}

} // verus!
