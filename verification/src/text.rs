//! Text primitives over the characters of a string.

use vstd::prelude::*;

verus! {

/// The characters of `s`.
pub fn chars(s: &str) -> (v: Vec<char>)
    ensures
        v@ == s@,
{
    let mut v: Vec<char> = Vec::new();
    for c in it: s.chars()
        invariant
            v@ == it.seq().take(it.index() as int),
            it.seq() == s@,
    {
        v.push(c);
    }
    v
}

/// Whether `a` and `b` hold the same characters.
pub fn same(a: &str, b: &str) -> (r: bool)
    ensures
        r == (a@ == b@),
{
    let x = chars(a);
    let y = chars(b);
    if x.len() != y.len() {
        return false;
    }
    let mut i: usize = 0;
    while i < x.len()
        invariant
            i <= x.len(),
            x.len() == y.len(),
            x@ == a@,
            y@ == b@,
            forall|j: int| 0 <= j < i ==> x[j] == y[j],
        decreases x.len() - i,
    {
        if x[i] != y[i] {
            return false;
        }
        i += 1;
    }
    assert(x@ =~= y@);
    true
}

/// Whether `c` has the Unicode property `White_Space`.
pub open spec fn white_space(c: char) -> bool {
    let n = c as u32;
    ||| 0x9 <= n <= 0xD
    ||| n == 0x20
    ||| n == 0x85
    ||| n == 0xA0
    ||| n == 0x1680
    ||| 0x2000 <= n <= 0x200A
    ||| n == 0x2028
    ||| n == 0x2029
    ||| n == 0x202F
    ||| n == 0x205F
    ||| n == 0x3000
}

/// Whether `c` has the Unicode property `White_Space`.
pub fn is_whitespace(c: char) -> (r: bool)
    ensures
        r == white_space(c),
{
    let n: u32 = c as u32;
    (0x9 <= n && n <= 0xD) || n == 0x20 || n == 0x85 || n == 0xA0 || n == 0x1680 || (0x2000 <= n
        && n <= 0x200A) || n == 0x2028 || n == 0x2029 || n == 0x202F || n == 0x205F || n == 0x3000
}

/// Whether every character of `s` is white space.
pub open spec fn blank(s: Seq<char>) -> bool {
    forall|i: int| 0 <= i < s.len() ==> white_space(#[trigger] s[i])
}

/// Whether `s` is empty or holds white space only.
pub fn is_blank(s: &str) -> (r: bool)
    ensures
        r == blank(s@),
{
    let v = chars(s);
    let mut i: usize = 0;
    while i < v.len()
        invariant
            i <= v.len(),
            v@ == s@,
            forall|j: int| 0 <= j < i ==> white_space(#[trigger] v@[j]),
        decreases v.len() - i,
    {
        if !is_whitespace(v[i]) {
            assert(!white_space(s@[i as int]));
            return false;
        }
        i += 1;
    }
    true
}

/// `s` without the white space it begins with.
pub open spec fn trimmed_start(s: Seq<char>) -> Seq<char>
    decreases s.len(),
{
    if s.len() > 0 && white_space(s[0]) {
        trimmed_start(s.skip(1))
    } else {
        s
    }
}

/// `s` without the white space it ends with.
pub open spec fn trimmed_end(s: Seq<char>) -> Seq<char>
    decreases s.len(),
{
    if s.len() > 0 && white_space(s[s.len() - 1]) {
        trimmed_end(s.take(s.len() - 1))
    } else {
        s
    }
}

/// `s` without the white space around it.
pub open spec fn trimmed(s: Seq<char>) -> Seq<char> {
    trimmed_end(trimmed_start(s))
}

/// Returns `s` without the white space around it.
pub fn trim(s: &str) -> (r: &str)
    ensures
        r@ == trimmed(s@),
{
    let v = chars(s);
    let mut from: usize = 0;
    assert(s@.skip(0) =~= s@);
    while from < v.len() && is_whitespace(v[from])
        invariant
            from <= v.len(),
            v@ == s@,
            trimmed_start(s@.skip(from as int)) == trimmed_start(s@),
        decreases v.len() - from,
    {
        assert(s@.skip(from as int).skip(1) =~= s@.skip(from as int + 1));
        from += 1;
    }
    let ghost rest = s@.skip(from as int);
    assert(trimmed_start(s@) == rest);
    let mut to: usize = v.len();
    assert(rest.take(to - from) =~= rest);
    while to > from && is_whitespace(v[to - 1])
        invariant
            from <= to <= v.len(),
            v@ == s@,
            rest == s@.skip(from as int),
            trimmed_end(rest.take(to - from)) == trimmed_end(rest),
        decreases to - from,
    {
        assert(rest.take(to - from).take(to - from - 1) =~= rest.take(to - from - 1));
        to -= 1;
    }
    assert(s@.subrange(from as int, to as int) =~= rest.take(to - from));
    s.substring_char(from, to)
}

/// The first position at or after `from` at which `s` holds `c`.
pub open spec fn find(s: Seq<char>, c: char, from: int) -> Option<int>
    decreases s.len() - from,
{
    if from < 0 || from >= s.len() {
        None
    } else if s[from] == c {
        Some(from)
    } else {
        find(s, c, from + 1)
    }
}

/// Returns the first position at or after `from` at which `v` holds `c`.
pub fn find_char(v: &Vec<char>, c: char, from: usize) -> (r: Option<usize>)
    ensures
        match r {
            Some(i) => find(v@, c, from as int) == Some(i as int) && from <= i < v.len(),
            None => find(v@, c, from as int) is None,
        },
{
    let mut i: usize = from;
    while i < v.len()
        invariant
            from <= i,
            find(v@, c, i as int) == find(v@, c, from as int),
        decreases v.len() - i,
    {
        if v[i] == c {
            return Some(i);
        }
        i += 1;
    }
    None
}

/// Where `find` stops, and what it has passed over.
pub proof fn lemma_find(s: Seq<char>, c: char, from: int)
    requires
        0 <= from,
    ensures
        match find(s, c, from) {
            Some(i) => from <= i < s.len() && s[i] == c && forall|j: int|
                from <= j < i ==> s[j] != c,
            None => forall|j: int| from <= j < s.len() ==> s[j] != c,
        },
    decreases s.len() - from,
{
    if from < s.len() && s[from] != c {
        lemma_find(s, c, from + 1);
    }
}

/// Whether `s` begins with `prefix`.
pub fn starts_with(s: &str, prefix: &str) -> (r: bool)
    ensures
        r == prefix@.is_prefix_of(s@),
{
    let v = chars(s);
    let p = chars(prefix);
    if p.len() > v.len() {
        return false;
    }
    let mut i: usize = 0;
    while i < p.len()
        invariant
            i <= p.len() <= v.len(),
            v@ == s@,
            p@ == prefix@,
            forall|j: int| 0 <= j < i ==> v[j] == p[j],
        decreases p.len() - i,
    {
        if v[i] != p[i] {
            assert(s@.subrange(0, p@.len() as int)[i as int] == v[i as int]);
            return false;
        }
        i += 1;
    }
    assert(prefix@ =~= s@.subrange(0, prefix@.len() as int));
    true
}

/// `s` without `prefix` in front, where it begins with it.
pub open spec fn without_prefix(s: Seq<char>, prefix: Seq<char>) -> Option<Seq<char>> {
    if prefix.is_prefix_of(s) {
        Some(s.skip(prefix.len() as int))
    } else {
        None
    }
}

/// Returns `s` without `prefix` in front, where it begins with it.
pub fn strip_prefix<'a>(s: &'a str, prefix: &str) -> (r: Option<&'a str>)
    ensures
        match r {
            Some(rest) => without_prefix(s@, prefix@) == Some(rest@),
            None => without_prefix(s@, prefix@) is None,
        },
{
    if starts_with(s, prefix) {
        assert(s@.subrange(prefix@.len() as int, s@.len() as int) =~= s@.skip(
            prefix@.len() as int,
        ));
        Some(s.substring_char(prefix.unicode_len(), s.unicode_len()))
    } else {
        None
    }
}

/// `s` without the characters `c` it ends with.
pub open spec fn without_trailing(s: Seq<char>, c: char) -> Seq<char>
    decreases s.len(),
{
    if s.len() > 0 && s[s.len() - 1] == c {
        without_trailing(s.take(s.len() - 1), c)
    } else {
        s
    }
}

/// Returns `s` without the characters `c` it ends with.
pub fn trim_end_matches(s: &str, c: char) -> (r: &str)
    ensures
        r@ == without_trailing(s@, c),
{
    let v = chars(s);
    let mut to: usize = v.len();
    assert(s@.take(to as int) =~= s@);
    while to > 0 && v[to - 1] == c
        invariant
            to <= v.len(),
            v@ == s@,
            without_trailing(s@.take(to as int), c) == without_trailing(s@, c),
        decreases to,
    {
        assert(s@.take(to as int).take(to - 1) =~= s@.take(to - 1));
        to -= 1;
    }
    assert(s@.subrange(0, to as int) =~= s@.take(to as int));
    s.substring_char(0, to)
}

/// The decimal digit `d`.
pub open spec fn digit(d: int) -> char {
    ('0' as u32 + d) as char
}

/// `n` in decimal, without leading zeros.
pub open spec fn decimal(n: nat) -> Seq<char>
    decreases n,
{
    if n < 10 {
        seq![digit(n as int)]
    } else {
        decimal(n / 10).push(digit((n % 10) as int))
    }
}

/// The digit `d` as text.
fn digit_text(d: u64) -> (r: &'static str)
    requires
        d < 10,
    ensures
        r@ == seq![digit(d as int)],
{
    proof {
        reveal_strlit("0");
        reveal_strlit("1");
        reveal_strlit("2");
        reveal_strlit("3");
        reveal_strlit("4");
        reveal_strlit("5");
        reveal_strlit("6");
        reveal_strlit("7");
        reveal_strlit("8");
        reveal_strlit("9");
    }
    match d {
        0 => "0",
        1 => "1",
        2 => "2",
        3 => "3",
        4 => "4",
        5 => "5",
        6 => "6",
        7 => "7",
        8 => "8",
        _ => "9",
    }
}

/// Returns `n` in decimal.
pub fn to_decimal(n: u64) -> (r: String)
    ensures
        r@ == decimal(n as nat),
    decreases n,
{
    if n < 10 {
        digit_text(n).to_owned()
    } else {
        let mut r = to_decimal(n / 10);
        r.append(digit_text(n % 10));
        assert(r@ =~= decimal(n as nat));
        r
    }
}

/// Whether `c` is a decimal digit.
pub open spec fn is_digit(c: char) -> bool {
    '0' as u32 <= c as u32 <= '9' as u32
}

/// Whether `s` holds decimal digits only.
pub open spec fn all_digits(s: Seq<char>) -> bool {
    forall|i: int| 0 <= i < s.len() ==> is_digit(#[trigger] s[i])
}

/// The number that the digits `s` stand for.
pub open spec fn digits_value(s: Seq<char>) -> nat
    decreases s.len(),
{
    if s.len() == 0 {
        0
    } else {
        (digits_value(s.take(s.len() - 1)) * 10 + (s[s.len() - 1] as u32 - '0' as u32)) as nat
    }
}

/// The digits of `s`, which an optional `+` precedes.
pub open spec fn unsigned_digits(s: Seq<char>) -> Seq<char> {
    if s.len() > 0 && s[0] == '+' {
        s.skip(1)
    } else {
        s
    }
}

/// The `u64` that `s` writes: an optional `+` and then at least one digit.
pub open spec fn parsed_u64(s: Seq<char>) -> Option<u64> {
    let digits = unsigned_digits(s);
    if digits.len() > 0 && all_digits(digits) && digits_value(digits) <= u64::MAX {
        Some(digits_value(digits) as u64)
    } else {
        None
    }
}

/// A prefix of digits stands for no more than the whole does.
proof fn lemma_prefix_value(s: Seq<char>, n: int)
    requires
        all_digits(s),
        0 <= n <= s.len(),
    ensures
        digits_value(s.take(n)) <= digits_value(s),
    decreases s.len(),
{
    if n < s.len() {
        let t = s.take(s.len() - 1);
        lemma_prefix_value(t, n);
        assert(t.take(n) =~= s.take(n));
        assert(is_digit(s[s.len() - 1]));
    } else {
        assert(s.take(n) =~= s);
    }
}

/// Returns the `u64` that `s` writes.
pub fn parse_u64(s: &str) -> (r: Option<u64>)
    ensures
        r == parsed_u64(s@),
{
    let v = chars(s);
    let from: usize = if v.len() > 0 && v[0] == '+' {
        1
    } else {
        0
    };
    let ghost digits = unsigned_digits(s@);
    assert(digits =~= s@.skip(from as int));
    if from == v.len() {
        return None;
    }
    let mut value: u64 = 0;
    let mut i: usize = from;
    assert(digits.take(0) =~= Seq::<char>::empty());
    while i < v.len()
        invariant
            from <= i <= v.len(),
            v@ == s@,
            digits == unsigned_digits(s@),
            digits == s@.skip(from as int),
            all_digits(digits.take(i - from)),
            value == digits_value(digits.take(i - from)),
        decreases v.len() - i,
    {
        let c: char = v[i];
        let n: u32 = c as u32;
        assert(digits[i - from] == c);
        if n < 0x30 || n > 0x39 {
            assert(!is_digit(digits[i - from]));
            return None;
        }
        let d: u64 = (n - 0x30) as u64;
        let ghost next = digits.take(i - from + 1);
        assert(next.take(next.len() - 1) =~= digits.take(i - from));
        assert(next[next.len() - 1] == c);
        assert(digits_value(next) == value * 10 + d);
        assert(all_digits(next)) by {
            assert forall|j: int| 0 <= j < next.len() implies is_digit(#[trigger] next[j]) by {
                if j < i - from {
                    assert(next[j] == digits.take(i - from)[j]);
                }
            }
        }
        if value > (u64::MAX - d) / 10 {
            proof {
                assert(value * 10 + d > u64::MAX);
                if all_digits(digits) {
                    lemma_prefix_value(digits, i - from + 1);
                }
            }
            return None;
        }
        value = value * 10 + d;
        i += 1;
    }
    assert(digits.take(i - from) =~= digits);
    Some(value)
}

/// The number written in decimal reads back as itself.
pub proof fn decimal_reads_back(n: u64)
    ensures
        parsed_u64(decimal(n as nat)) == Some(n),
{
    lemma_decimal(n as nat);
    let s = decimal(n as nat);
    assert(is_digit(s[0]));
}

/// What `decimal` writes is digits that stand for `n`.
proof fn lemma_decimal(n: nat)
    ensures
        decimal(n).len() > 0,
        all_digits(decimal(n)),
        digits_value(decimal(n)) == n,
    decreases n,
{
    let s = decimal(n);
    if n < 10 {
        assert(s.take(0) =~= Seq::<char>::empty());
        assert(digits_value(s.take(0)) == 0);
    } else {
        lemma_decimal(n / 10);
        assert(s.take(s.len() - 1) =~= decimal(n / 10));
    }
}

/// Different numbers are written differently.
pub proof fn decimal_is_injective(m: nat, n: nat)
    ensures
        decimal(m) == decimal(n) ==> m == n,
{
    lemma_decimal(m);
    lemma_decimal(n);
}

/// The view of an optional string slice.
pub open spec fn option_str_view(s: Option<&str>) -> Option<Seq<char>> {
    match s {
        Some(s) => Some(s@),
        None => None,
    }
}

/// The view of an optional string.
pub open spec fn option_view(s: Option<String>) -> Option<Seq<char>> {
    match s {
        Some(s) => Some(s@),
        None => None,
    }
}

/// `value`, unless it is blank.
pub open spec fn non_blank(value: Option<Seq<char>>) -> Option<Seq<char>> {
    match value {
        Some(text) => if blank(text) {
            None
        } else {
            Some(text)
        },
        None => None,
    }
}

/// Returns `value`, unless it is blank.
pub fn keep_non_blank(value: Option<String>) -> (r: Option<String>)
    ensures
        option_view(r) == non_blank(option_view(value)),
{
    match value {
        Some(text) => if is_blank(text.as_str()) {
            None
        } else {
            Some(text)
        },
        None => None,
    }
}

/// The views of a list of strings.
pub open spec fn views(list: Seq<String>) -> Seq<Seq<char>> {
    list.map_values(|s: String| s@)
}

/// The items of `list` with `separator` between them.
pub open spec fn joined(list: Seq<Seq<char>>, separator: Seq<char>) -> Seq<char>
    decreases list.len(),
{
    if list.len() == 0 {
        Seq::empty()
    } else if list.len() == 1 {
        list[0]
    } else {
        joined(list.take(list.len() - 1), separator) + separator + list[list.len() - 1]
    }
}

/// Joins `list` with `separator` between its items.
pub fn join(list: &Vec<String>, separator: &str) -> (r: String)
    ensures
        r@ == joined(views(list@), separator@),
{
    let mut r = String::new();
    let mut i: usize = 0;
    while i < list.len()
        invariant
            i <= list.len(),
            r@ == joined(views(list@).take(i as int), separator@),
        decreases list.len() - i,
    {
        if i > 0 {
            r.append(separator);
        }
        r.append(list[i].as_str());
        let ghost next = views(list@).take(i + 1);
        assert(next.take(next.len() - 1) =~= views(list@).take(i as int));
        assert(r@ =~= joined(next, separator@));
        i += 1;
    }
    assert(views(list@).take(i as int) =~= views(list@));
    r
}

} // verus!
