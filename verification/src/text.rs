//! Text primitives shared by the rest of the library: white space and
//! trimming, splitting, decimal numerals and lists in one line, each with
//! its mathematical meaning over `Seq<char>`.

use vstd::prelude::*;
use vstd::std_specs::iter::IteratorSpec;
use vstd::string::StrSliceExecFns;

verus! {

/// Appending one character to a `String` with `String::push` puts it after
/// the characters already there and changes nothing else.
pub assume_specification[ String::push ](s: &mut String, c: char)
    ensures
        final(s)@ == old(s)@.push(c),
;

/// The characters of `s`, in order.
pub fn chars_of(s: &str) -> (v: Vec<char>)
    ensures
        v@ == s@,
{
    broadcast use vstd::string::group_string_axioms;

    let mut v: Vec<char> = Vec::new();
    let it = s.chars();
    for c in iter: it
        invariant
            iter.seq() == s@,
            v@ == s@.take(iter.index()),
    {
        v.push(c);
    }
    v
}

/// The string made of the characters `v[from..to]`.
fn string_of(v: &Vec<char>, from: usize, to: usize) -> (s: String)
    requires
        from <= to <= v.len(),
    ensures
        s@ == v@.subrange(from as int, to as int),
{
    let mut s = String::new();
    let mut i: usize = from;
    while i < to
        invariant
            from <= i <= to <= v.len(),
            s@ == v@.subrange(from as int, i as int),
        decreases to - i,
    {
        s.push(v[i]);
        i = i + 1;
    }
    s
}

// ---------------------------------------------------------------------------
// White space
// ---------------------------------------------------------------------------

/// The characters with the Unicode property `White_Space`.
pub open spec fn is_white_space(c: char) -> bool {
    let n = c as u32;
    ||| 0x09 <= n <= 0x0d
    ||| n == 0x20
    ||| n == 0x85
    ||| n == 0xa0
    ||| n == 0x1680
    ||| 0x2000 <= n <= 0x200a
    ||| n == 0x2028
    ||| n == 0x2029
    ||| n == 0x202f
    ||| n == 0x205f
    ||| n == 0x3000
}

/// Whether `c` is white space.
pub fn is_whitespace(c: char) -> (r: bool)
    ensures
        r == is_white_space(c),
{
    let n: u32 = c as u32;
    (0x09 <= n && n <= 0x0d) || n == 0x20 || n == 0x85 || n == 0xa0 || n == 0x1680 || (0x2000 <= n
        && n <= 0x200a) || n == 0x2028 || n == 0x2029 || n == 0x202f || n == 0x205f || n == 0x3000
}

/// How many white-space characters `s` starts with.
pub open spec fn leading_blank(s: Seq<char>) -> nat
    decreases s.len(),
{
    if s.len() > 0 && is_white_space(s[0]) {
        1 + leading_blank(s.skip(1))
    } else {
        0
    }
}

/// How many white-space characters `s` ends with.
pub open spec fn trailing_blank(s: Seq<char>) -> nat
    decreases s.len(),
{
    if s.len() > 0 && is_white_space(s.last()) {
        1 + trailing_blank(s.drop_last())
    } else {
        0
    }
}

/// `s` without the white space it starts with.
pub open spec fn trimmed_start(s: Seq<char>) -> Seq<char> {
    s.skip(leading_blank(s) as int)
}

/// `s` without the white space it ends with.
pub open spec fn trimmed_end(s: Seq<char>) -> Seq<char> {
    s.take(s.len() - trailing_blank(s))
}

/// `s` without the white space at either end.
pub open spec fn trimmed(s: Seq<char>) -> Seq<char> {
    trimmed_end(trimmed_start(s))
}

/// A text is blank when nothing is left of it after trimming.
pub open spec fn is_blank(s: Seq<char>) -> bool {
    trimmed(s).len() == 0
}

/// The white space that `s` starts with ends at its first other character.
pub proof fn lemma_leading_blank_bound(s: Seq<char>)
    ensures
        leading_blank(s) <= s.len(),
        forall|i: int| 0 <= i < leading_blank(s) ==> is_white_space(#[trigger] s[i]),
        leading_blank(s) < s.len() ==> !is_white_space(s[leading_blank(s) as int]),
    decreases s.len(),
{
    if s.len() > 0 && is_white_space(s[0]) {
        let t = s.skip(1);
        lemma_leading_blank_bound(t);
        assert forall|i: int| 0 <= i < leading_blank(s) implies is_white_space(#[trigger] s[i]) by {
            if i > 0 {
                assert(s[i] == t[i - 1]);
            }
        }
        if leading_blank(s) < s.len() {
            assert(s[leading_blank(s) as int] == t[leading_blank(t) as int]);
        }
    }
}

/// The white space that `s` ends with starts after its last other
/// character.
pub proof fn lemma_trailing_blank_bound(s: Seq<char>)
    ensures
        trailing_blank(s) <= s.len(),
        forall|i: int| s.len() - trailing_blank(s) <= i < s.len() ==> is_white_space(#[trigger] s[i]),
        trailing_blank(s) < s.len() ==> !is_white_space(s[s.len() - trailing_blank(s) - 1]),
    decreases s.len(),
{
    if s.len() > 0 && is_white_space(s.last()) {
        let t = s.drop_last();
        lemma_trailing_blank_bound(t);
        assert forall|i: int| s.len() - trailing_blank(s) <= i < s.len() implies is_white_space(
            #[trigger] s[i],
        ) by {
            if i < s.len() - 1 {
                assert(s[i] == t[i]);
            }
        }
        if trailing_blank(s) < s.len() {
            assert(s[s.len() - trailing_blank(s) - 1] == t[t.len() - trailing_blank(t) - 1]);
        }
    }
}

/// Trimming leaves white space at neither end, and a text is blank exactly
/// when all its characters are white space.
pub proof fn lemma_trimmed(s: Seq<char>)
    ensures
        trimmed(s).len() <= s.len(),
        trimmed(s).len() > 0 ==> !is_white_space(trimmed(s).first()) && !is_white_space(
            trimmed(s).last(),
        ),
        is_blank(s) <==> (forall|i: int| 0 <= i < s.len() ==> is_white_space(#[trigger] s[i])),
        trimmed(s) == s.subrange(
            leading_blank(s) as int,
            s.len() - trailing_blank(trimmed_start(s)),
        ),
{
    let a = leading_blank(s);
    lemma_leading_blank_bound(s);
    let rest = trimmed_start(s);
    lemma_trailing_blank_bound(rest);
    let b = trailing_blank(rest);
    assert(trimmed(s) =~= s.subrange(a as int, s.len() - b));
    if trimmed(s).len() > 0 {
        assert(b < rest.len());
        assert(trimmed(s).last() == rest[rest.len() - b - 1]);
        assert(trimmed(s).first() == s[a as int]);
    }
    if is_blank(s) {
        assert forall|i: int| 0 <= i < s.len() implies is_white_space(#[trigger] s[i]) by {
            if i >= a {
                assert(s[i] == rest[i - a]);
            }
        }
    } else {
        assert(!is_white_space(trimmed(s).first()));
        assert(trimmed(s).first() == s[a as int]);
    }
}

/// `s` without the white space at either end, as `str::trim` gives it.
pub fn trim<'a>(s: &'a str) -> (r: &'a str)
    ensures
        r@ == trimmed(s@),
{
    let v = chars_of(s);
    let n: usize = v.len();
    let mut start: usize = 0;
    assert(v@.skip(0) =~= v@);
    while start < n && is_whitespace(v[start])
        invariant
            start <= n == v.len(),
            leading_blank(v@) == start + leading_blank(v@.skip(start as int)),
        decreases n - start,
    {
        assert(v@.skip(start as int).skip(1) =~= v@.skip(start + 1));
        start = start + 1;
    }
    let ghost rest = v@.skip(start as int);
    assert(rest == trimmed_start(v@));
    let mut end: usize = n;
    assert(v@.subrange(start as int, end as int) =~= rest);
    while end > start && is_whitespace(v[end - 1])
        invariant
            start <= end <= n == v.len(),
            rest == v@.skip(start as int),
            trailing_blank(rest) == (n - end) + trailing_blank(v@.subrange(start as int, end as int)),
        decreases end,
    {
        assert(v@.subrange(start as int, end as int).drop_last() =~= v@.subrange(
            start as int,
            end - 1,
        ));
        end = end - 1;
    }
    assert(rest.take(rest.len() - trailing_blank(rest)) =~= v@.subrange(start as int, end as int));
    s.substring_char(start, end)
}

/// Whether `s` is blank: empty, or white space only.
pub fn is_blank_str(s: &str) -> (r: bool)
    ensures
        r == is_blank(s@),
{
    let t = trim(s);
    t.unicode_len() == 0
}

// ---------------------------------------------------------------------------
// Searching and splitting
// ---------------------------------------------------------------------------

/// The place of the first `c` in `s`, or the length of `s` where it has none.
pub open spec fn index_of<T>(s: Seq<T>, c: T) -> nat
    decreases s.len(),
{
    if s.len() == 0 || s[0] == c {
        0
    } else {
        1 + index_of(s.skip(1), c)
    }
}

/// `index_of` is the one place before which `s` has no `c` and at which it
/// has one or ends.
pub proof fn lemma_index_of<T>(s: Seq<T>, c: T, i: int)
    requires
        0 <= i <= s.len(),
        forall|j: int| 0 <= j < i ==> s[j] != c,
        i < s.len() ==> s[i] == c,
    ensures
        index_of(s, c) == i,
    decreases i,
{
    if i > 0 {
        let t = s.skip(1);
        assert forall|j: int| 0 <= j < i - 1 implies t[j] != c by {
            assert(t[j] == s[j + 1]);
        }
        lemma_index_of(t, c, i - 1);
    }
}

/// Before the place that `index_of` gives, `s` has no `c`; at it, `s` has
/// one or ends.
pub proof fn lemma_index_of_bound<T>(s: Seq<T>, c: T)
    ensures
        index_of(s, c) <= s.len(),
        forall|j: int| 0 <= j < index_of(s, c) ==> s[j] != c,
        index_of(s, c) < s.len() ==> s[index_of(s, c) as int] == c,
    decreases s.len(),
{
    if !(s.len() == 0 || s[0] == c) {
        let t = s.skip(1);
        lemma_index_of_bound(t, c);
        assert forall|j: int| 0 <= j < index_of(s, c) implies s[j] != c by {
            if j > 0 {
                assert(s[j] == t[j - 1]);
            }
        }
    }
}

/// The pieces of `s` between occurrences of `sep`: one more piece than
/// there are separators, empty pieces included.
pub open spec fn split(s: Seq<char>, sep: char) -> Seq<Seq<char>>
    decreases s.len(),
{
    let i = index_of(s, sep);
    if i >= s.len() {
        seq![s]
    } else {
        seq![s.take(i as int)] + split(s.skip(i as int + 1), sep)
    }
}

/// The two pieces of `s` around its first `sep`, or nothing where it has
/// none.
pub open spec fn split_once(s: Seq<char>, sep: char) -> Option<(Seq<char>, Seq<char>)> {
    let i = index_of(s, sep);
    if i >= s.len() {
        None
    } else {
        Some((s.take(i as int), s.skip(i as int + 1)))
    }
}

/// The views of the strings of `v`, in order.
pub open spec fn views(v: Seq<String>) -> Seq<Seq<char>> {
    v.map_values(|s: String| s@)
}

/// The pieces of `s` between occurrences of `sep`, as `str::split` gives
/// them.
pub fn split_str(s: &str, sep: char) -> (parts: Vec<String>)
    ensures
        views(parts@) == split(s@, sep),
{
    let v = chars_of(s);
    let n: usize = v.len();
    let mut parts: Vec<String> = Vec::new();
    let mut from: usize = 0;
    let mut i: usize = 0;
    assert(v@.skip(0) =~= v@);
    assert(views(parts@) =~= Seq::<Seq<char>>::empty());
    while i < n
        invariant
            from <= i <= n == v.len(),
            forall|j: int| from <= j < i ==> v@[j] != sep,
            split(v@, sep) == views(parts@) + split(v@.skip(from as int), sep),
        decreases n - i,
    {
        if v[i] == sep {
            let piece = string_of(&v, from, i);
            proof {
                let rest = v@.skip(from as int);
                assert forall|j: int| 0 <= j < i - from implies rest[j] != sep by {
                    assert(rest[j] == v@[from + j]);
                }
                lemma_index_of(rest, sep, i - from);
                assert(rest.take(i - from) =~= piece@);
                assert(rest.skip(i - from + 1) =~= v@.skip(i + 1));
                assert(views(parts@.push(piece)) =~= views(parts@) + seq![piece@]);
            }
            parts.push(piece);
            from = i + 1;
        }
        i = i + 1;
    }
    let piece = string_of(&v, from, n);
    proof {
        let rest = v@.skip(from as int);
        assert forall|j: int| 0 <= j < n - from implies rest[j] != sep by {
            assert(rest[j] == v@[from + j]);
        }
        lemma_index_of(rest, sep, n - from);
        assert(rest =~= piece@);
        assert(views(parts@.push(piece)) =~= views(parts@) + seq![piece@]);
    }
    parts.push(piece);
    parts
}

/// The two pieces of `s` around its first `sep`, or nothing where it has
/// none.
pub fn split_once_str(s: &str, sep: char) -> (r: Option<(String, String)>)
    ensures
        match r {
            Some((head, tail)) => split_once(s@, sep) == Some((head@, tail@)),
            None => split_once(s@, sep) is None,
        },
{
    let v = chars_of(s);
    let n: usize = v.len();
    let mut i: usize = 0;
    while i < n && v[i] != sep
        invariant
            i <= n == v.len(),
            forall|j: int| 0 <= j < i ==> v@[j] != sep,
        decreases n - i,
    {
        i = i + 1;
    }
    proof {
        lemma_index_of(v@, sep, i as int);
    }
    if i < n {
        let head = string_of(&v, 0, i);
        let tail = string_of(&v, i + 1, n);
        assert(v@.take(i as int) =~= head@);
        assert(v@.skip(i + 1) =~= tail@);
        Some((head, tail))
    } else {
        None
    }
}

// ---------------------------------------------------------------------------
// Decimal numerals
// ---------------------------------------------------------------------------

/// The ASCII digits.
pub open spec fn is_digit(c: char) -> bool {
    '0' <= c <= '9'
}

/// What a digit stands for; zero for any other character.
pub open spec fn digit_value(c: char) -> nat {
    if is_digit(c) {
        (c as u32 - '0' as u32) as nat
    } else {
        0
    }
}

/// The digit that stands for `d`, below ten.
pub open spec fn digit_char(d: nat) -> char {
    ('0' as u32 + d) as char
}

/// Whether `s` holds digits only.
pub open spec fn all_digits(s: Seq<char>) -> bool {
    forall|i: int| 0 <= i < s.len() ==> is_digit(#[trigger] s[i])
}

/// The decimal numeral of `n`, without leading zeros.
pub open spec fn decimal(n: nat) -> Seq<char>
    decreases n,
{
    if n < 10 {
        seq![digit_char(n)]
    } else {
        decimal(n / 10).push(digit_char(n % 10))
    }
}

/// The number that a run of digits stands for, leading zeros allowed.
pub open spec fn decimal_value(s: Seq<char>) -> nat
    decreases s.len(),
{
    if s.len() == 0 {
        0
    } else {
        decimal_value(s.drop_last()) * 10 + digit_value(s.last())
    }
}

/// What a numeral stands for as a 32-bit unsigned integer: an optional `+`,
/// then one digit or more, whose value fits; nothing otherwise.
pub open spec fn parse_decimal_u32(s: Seq<char>) -> Option<u32> {
    let digits = if s.len() > 0 && s[0] == '+' {
        s.skip(1)
    } else {
        s
    };
    if digits.len() > 0 && all_digits(digits) && decimal_value(digits) <= u32::MAX {
        Some(decimal_value(digits) as u32)
    } else {
        None
    }
}

/// A run of digits stands for at least what any shorter start of it does.
pub proof fn lemma_decimal_value_monotonic(s: Seq<char>, k: int)
    requires
        0 <= k <= s.len(),
    ensures
        decimal_value(s.take(k)) <= decimal_value(s),
    decreases s.len() - k,
{
    if k == s.len() {
        assert(s.take(k) =~= s);
    } else {
        let t = s.drop_last();
        assert(t.take(k) =~= s.take(k));
        lemma_decimal_value_monotonic(t, k);
    }
}

/// The numeral of `n` is made of digits, and stands for `n`.
pub proof fn lemma_decimal(n: nat)
    ensures
        decimal(n).len() > 0,
        all_digits(decimal(n)),
        decimal_value(decimal(n)) == n,
    decreases n,
{
    if n < 10 {
        let s = decimal(n);
        assert(s.drop_last() =~= Seq::<char>::empty());
        assert(decimal_value(s.drop_last()) == 0);
        assert(s.last() == digit_char(n));
    } else {
        lemma_decimal(n / 10);
        let t = decimal(n / 10);
        let s = decimal(n);
        assert(s.drop_last() =~= t);
        assert(s.last() == digit_char(n % 10));
        assert forall|i: int| 0 <= i < s.len() implies is_digit(#[trigger] s[i]) by {
            if i < t.len() {
                assert(s[i] == t[i]);
            }
        }
    }
}

/// Reading the numeral of a 32-bit number gives the number back.
pub proof fn lemma_parse_decimal(n: u32)
    ensures
        parse_decimal_u32(decimal(n as nat)) == Some(n),
{
    lemma_decimal(n as nat);
    assert(is_digit(decimal(n as nat)[0]));
}

/// What a numeral stands for, as `str::parse::<u32>` gives it.
pub fn parse_u32(s: &str) -> (r: Option<u32>)
    ensures
        r == parse_decimal_u32(s@),
{
    let v = chars_of(s);
    let n: usize = v.len();
    let start: usize = if n > 0 && v[0] == '+' {
        1
    } else {
        0
    };
    let ghost digits = v@.skip(start as int);
    if start == n {
        return None;
    }
    let mut acc: u32 = 0;
    let mut i: usize = start;
    assert(digits.take(0) =~= Seq::<char>::empty());
    assert(v@.skip(0) =~= v@);
    while i < n
        invariant
            start <= i <= n == v.len(),
            start < n,
            v@ == s@,
            digits == (if s@[0] == '+' { s@.skip(1) } else { s@ }),
            digits == v@.skip(start as int),
            all_digits(digits.take(i - start)),
            acc == decimal_value(digits.take(i - start)),
        decreases n - i,
    {
        let c: char = v[i];
        let ghost next = digits.take(i - start + 1);
        assert(next.drop_last() =~= digits.take(i - start));
        assert(next.last() == c);
        if !('0' <= c && c <= '9') {
            assert(!is_digit(digits[i - start]));
            return None;
        }
        let d: u32 = c as u32 - '0' as u32;
        assert(decimal_value(next) == acc * 10 + d);
        let shifted: u32 = match acc.checked_mul(10) {
            Some(x) => x,
            None => {
                proof {
                    lemma_decimal_value_monotonic(digits, i - start + 1);
                }
                return None;
            },
        };
        acc = match shifted.checked_add(d) {
            Some(x) => x,
            None => {
                proof {
                    lemma_decimal_value_monotonic(digits, i - start + 1);
                }
                return None;
            },
        };
        assert forall|k: int| 0 <= k < next.len() implies is_digit(#[trigger] next[k]) by {
            if k < next.len() - 1 {
                assert(next[k] == digits.take(i - start)[k]);
            }
        }
        i = i + 1;
    }
    assert(digits.take(n - start) =~= digits);
    Some(acc)
}

/// The digit that stands for `d`.
fn digit_of(d: u32) -> (c: char)
    requires
        d < 10,
    ensures
        c == digit_char(d as nat),
{
    if d == 0 {
        '0'
    } else if d == 1 {
        '1'
    } else if d == 2 {
        '2'
    } else if d == 3 {
        '3'
    } else if d == 4 {
        '4'
    } else if d == 5 {
        '5'
    } else if d == 6 {
        '6'
    } else if d == 7 {
        '7'
    } else if d == 8 {
        '8'
    } else {
        '9'
    }
}

/// Puts the decimal numeral of `n` at the end of `out`.
pub fn push_decimal(out: &mut String, n: u32)
    ensures
        final(out)@ == old(out)@ + decimal(n as nat),
    decreases n,
{
    if n >= 10 {
        push_decimal(out, n / 10);
    }
    out.push(digit_of(n % 10));
    assert(final(out)@ =~= old(out)@ + decimal(n as nat));
}

// ---------------------------------------------------------------------------
// Lists in one line
// ---------------------------------------------------------------------------

/// The first `n` of `parts`, each trimmed, without those that are blank.
pub open spec fn trimmed_parts(parts: Seq<Seq<char>>, n: int) -> Seq<Seq<char>>
    decreases n,
{
    if n <= 0 {
        Seq::empty()
    } else {
        let before = trimmed_parts(parts, n - 1);
        if is_blank(parts[n - 1]) {
            before
        } else {
            before.push(trimmed(parts[n - 1]))
        }
    }
}

/// What a line lists: its pieces between commas, each trimmed, without
/// the blank ones.
pub open spec fn listed(line: Seq<char>) -> Seq<Seq<char>> {
    trimmed_parts(split(line, ','), split(line, ',').len() as int)
}

/// What a line lists between commas.
pub fn parse_list(line: &str) -> (items: Vec<String>)
    ensures
        views(items@) == listed(line@),
{
    let parts = split_str(line, ',');
    let ghost pieces = split(line@, ',');
    let mut items: Vec<String> = Vec::new();
    let n: usize = parts.len();
    let mut i: usize = 0;
    assert(views(items@) =~= trimmed_parts(pieces, 0));
    while i < n
        invariant
            i <= n == parts.len(),
            views(parts@) == pieces,
            views(items@) == trimmed_parts(pieces, i as int),
        decreases n - i,
    {
        assert(pieces[i as int] == parts@[i as int]@);
        let bare = trim(parts[i].as_str());
        if bare.unicode_len() != 0 {
            let ghost before = items@;
            items.push(bare.to_owned());
            assert(views(items@) =~= views(before).push(trimmed(pieces[i as int])));
        }
        i = i + 1;
    }
    items
}

} // verus!
