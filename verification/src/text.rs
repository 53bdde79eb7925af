//! Text primitives over sequences of characters: lines, words, prefixes and
//! decimal numbers.
//!
//! Every executable function here is stated over the character sequence that a
//! string holds (its view), never over its bytes.

use vstd::prelude::*;

verus! {

// ---------------------------------------------------------------------------
// Characters
// ---------------------------------------------------------------------------

/// The characters that have the Unicode `White_Space` property.
pub open spec fn is_white_space(c: char) -> bool {
    let n = c as u32;
    ||| 0x9 <= n <= 0xd
    ||| n == 0x20
    ||| n == 0x85
    ||| n == 0xa0
    ||| n == 0x1680
    ||| 0x2000 <= n <= 0x200a
    ||| n == 0x2028
    ||| n == 0x2029
    ||| n == 0x202f
    ||| n == 0x205f
    ||| n == 0x3000
}

/// No character of `s` is white space.
pub open spec fn is_solid(s: Seq<char>) -> bool {
    forall|i: int| 0 <= i < s.len() ==> !is_white_space(#[trigger] s[i])
}

/// Whether `c` has the Unicode `White_Space` property.
pub fn white_space(c: char) -> (r: bool)
    ensures
        r == is_white_space(c),
{
    let n: u32 = c as u32;
    (0x9 <= n && n <= 0xd) || n == 0x20 || n == 0x85 || n == 0xa0 || n == 0x1680 || (0x2000 <= n
        && n <= 0x200a) || n == 0x2028 || n == 0x2029 || n == 0x202f || n == 0x205f || n == 0x3000
}

/// The characters of `s`, in order.
pub fn chars_of(s: &str) -> (r: Vec<char>)
    ensures
        r@ == s@,
{
    let mut out: Vec<char> = Vec::new();
    for c in it: s.chars()
        invariant
            out@ == s@.take(it.index()),
            it.seq() == s@,
    {
        out.push(c);
        assert(s@.take(it.index() + 1) =~= s@.take(it.index()).push(c));
    }
    assert(s@.take(s@.len() as int) =~= s@);
    out
}

// ---------------------------------------------------------------------------
// Equality and prefixes
// ---------------------------------------------------------------------------

/// Whether `a` and `b` hold the same characters.
pub fn same_text(a: &str, b: &str) -> (r: bool)
    ensures
        r == (a@ == b@),
{
    let x: String = a.to_owned();
    let y: String = b.to_owned();
    x == y
}

/// What follows `prefix` in `s`, where `s` begins with it.
pub open spec fn after_prefix(s: Seq<char>, prefix: Seq<char>) -> Option<Seq<char>> {
    if prefix.is_prefix_of(s) {
        Some(s.skip(prefix.len() as int))
    } else {
        None
    }
}

/// What follows `prefix` in `s`, or `None` where `s` does not begin with it.
pub fn strip_prefix<'a>(s: &'a str, prefix: &str) -> (r: Option<&'a str>)
    ensures
        match r {
            Some(rest) => after_prefix(s@, prefix@) == Some(rest@),
            None => after_prefix(s@, prefix@) is None,
        },
{
    let n: usize = s.unicode_len();
    let k: usize = prefix.unicode_len();
    if k <= n && same_text(s.substring_char(0, k), prefix) {
        Some(s.substring_char(k, n))
    } else {
        None
    }
}

/// `s` without the copies of `prefix` that it begins with.
pub open spec fn without_leading(s: Seq<char>, prefix: Seq<char>) -> Seq<char>
    decreases s.len(),
{
    if prefix.len() > 0 && prefix.is_prefix_of(s) {
        without_leading(s.skip(prefix.len() as int), prefix)
    } else {
        s
    }
}

/// `s` without the copies of `prefix` that it begins with.
pub fn strip_leading<'a>(s: &'a str, prefix: &str) -> (r: &'a str)
    ensures
        r@ == without_leading(s@, prefix@),
{
    if prefix.is_empty() {
        return s;
    }
    let mut rest: &'a str = s;
    loop
        invariant
            prefix@.len() > 0,
            without_leading(s@, prefix@) == without_leading(rest@, prefix@),
        decreases rest@.len(),
    {
        match strip_prefix(rest, prefix) {
            Some(shorter) => {
                rest = shorter;
            },
            None => {
                return rest;
            },
        }
    }
}

/// `s` without the copies of `c` that it ends with.
pub open spec fn without_trailing(s: Seq<char>, c: char) -> Seq<char>
    decreases s.len(),
{
    if s.len() > 0 && s.last() == c {
        without_trailing(s.drop_last(), c)
    } else {
        s
    }
}

/// `s` without the copies of `c` that it ends with.
pub fn strip_trailing(s: &str, c: char) -> (r: &str)
    ensures
        r@ == without_trailing(s@, c),
{
    let cs: Vec<char> = chars_of(s);
    let mut n: usize = cs.len();
    assert(s@.take(n as int) =~= s@);
    while n > 0 && cs[n - 1] == c
        invariant
            n <= cs@.len(),
            cs@ == s@,
            without_trailing(s@, c) == without_trailing(s@.take(n as int), c),
        decreases n,
    {
        assert(s@.take(n as int).drop_last() =~= s@.take(n - 1));
        n -= 1;
    }
    s.substring_char(0, n)
}

// ---------------------------------------------------------------------------
// Lines and words
// ---------------------------------------------------------------------------

/// How many characters `s` begins with before the first that `stop` accepts.
pub open spec fn length_before(s: Seq<char>, stop: spec_fn(char) -> bool) -> nat
    decreases s.len(),
{
    if s.len() == 0 || stop(s[0]) {
        0
    } else {
        1 + length_before(s.skip(1), stop)
    }
}

/// Accepts the line feed.
pub open spec fn line_feed() -> spec_fn(char) -> bool {
    |c: char| c == '\n'
}

/// Accepts white space.
pub open spec fn blank() -> spec_fn(char) -> bool {
    |c: char| is_white_space(c)
}

/// `length_before` is the one position up to which nothing is accepted and at
/// which the text ends or a character is accepted.
pub proof fn lemma_length_before(s: Seq<char>, stop: spec_fn(char) -> bool, n: int)
    requires
        0 <= n <= s.len(),
        forall|i: int| 0 <= i < n ==> !stop(#[trigger] s[i]),
        n < s.len() ==> stop(s[n]),
    ensures
        length_before(s, stop) == n,
    decreases s.len(),
{
    if s.len() > 0 && !stop(s[0]) {
        let t = s.skip(1);
        assert forall|i: int| 0 <= i < n - 1 implies !stop(#[trigger] t[i]) by {
            assert(t[i] == s[i + 1]);
        }
        lemma_length_before(t, stop, n - 1);
    } else if s.len() > 0 && n > 0 {
        assert(!stop(s[0]));
    }
}

/// `length_before` stays within `s`, accepts nothing before it and, where it
/// does not reach the end of `s`, accepts the character at it.
pub proof fn lemma_length_before_bounds(s: Seq<char>, stop: spec_fn(char) -> bool)
    ensures
        length_before(s, stop) <= s.len(),
        forall|i: int| 0 <= i < length_before(s, stop) ==> !stop(#[trigger] s[i]),
        length_before(s, stop) < s.len() ==> stop(s[length_before(s, stop) as int]),
    decreases s.len(),
{
    if s.len() > 0 && !stop(s[0]) {
        let t = s.skip(1);
        lemma_length_before_bounds(t, stop);
        assert forall|i: int| 0 <= i < length_before(s, stop) implies !stop(#[trigger] s[i]) by {
            if i > 0 {
                assert(t[i - 1] == s[i]);
            }
        }
    }
}

/// The first line of `s`: the characters before the first line feed, without
/// the carriage return that stands directly before it.
pub open spec fn first_line(s: Seq<char>) -> Seq<char> {
    let n = length_before(s, line_feed()) as int;
    if 0 < n < s.len() && s[n - 1] == '\r' {
        s.take(n - 1)
    } else {
        s.take(n)
    }
}

/// What follows the first line feed of `s`; empty where there is none.
pub open spec fn after_first_line(s: Seq<char>) -> Seq<char> {
    let n = length_before(s, line_feed()) as int;
    if n < s.len() {
        s.skip(n + 1)
    } else {
        Seq::empty()
    }
}

/// The first line of `s`, without its line terminator.
pub fn leading_line(s: &str) -> (r: &str)
    ensures
        r@ == first_line(s@),
{
    let cs: Vec<char> = chars_of(s);
    let mut n: usize = 0;
    while n < cs.len() && cs[n] != '\n'
        invariant
            n <= cs@.len(),
            cs@ == s@,
            forall|i: int| 0 <= i < n ==> !line_feed()(#[trigger] s@[i]),
        decreases cs.len() - n,
    {
        n += 1;
    }
    proof {
        lemma_length_before(s@, line_feed(), n as int);
    }
    if 0 < n && n < cs.len() && cs[n - 1] == '\r' {
        s.substring_char(0, n - 1)
    } else {
        s.substring_char(0, n)
    }
}

/// The maximal runs of characters of `s` that are not white space, in order.
pub open spec fn words(s: Seq<char>) -> Seq<Seq<char>>
    decreases s.len(),
{
    if s.len() == 0 {
        Seq::empty()
    } else if is_white_space(s[0]) {
        words(s.skip(1))
    } else {
        proof {
            lemma_length_before_bounds(s, blank());
        }
        let n = length_before(s, blank()) as int;
        seq![s.take(n)] + words(s.skip(n))
    }
}

/// The characters that each string of `parts` holds.
pub open spec fn texts(parts: Seq<&str>) -> Seq<Seq<char>> {
    parts.map_values(|p: &str| p@)
}

/// The maximal runs of characters of `s` that are not white space, in order.
pub fn split_words(s: &str) -> (r: Vec<&str>)
    ensures
        texts(r@) == words(s@),
{
    let cs: Vec<char> = chars_of(s);
    let mut out: Vec<&str> = Vec::new();
    let mut i: usize = 0;
    assert(s@.skip(0) =~= s@);
    assert(texts(out@) + words(s@) =~= words(s@));
    while i < cs.len()
        invariant
            i <= cs@.len(),
            cs@ == s@,
            texts(out@) + words(s@.skip(i as int)) == words(s@),
        decreases cs.len() - i,
    {
        let ghost rest = s@.skip(i as int);
        if white_space(cs[i]) {
            assert(rest.skip(1) =~= s@.skip(i + 1));
            i += 1;
        } else {
            let mut j: usize = i + 1;
            while j < cs.len() && !white_space(cs[j])
                invariant
                    i < j <= cs@.len(),
                    cs@ == s@,
                    forall|k: int| i <= k < j ==> !is_white_space(#[trigger] s@[k]),
                decreases cs.len() - j,
            {
                j += 1;
            }
            proof {
                let n = (j - i) as int;
                assert forall|k: int| 0 <= k < n implies !blank()(#[trigger] rest[k]) by {
                    assert(rest[k] == s@[i + k]);
                }
                lemma_length_before(rest, blank(), n);
                assert(rest.take(n) =~= s@.subrange(i as int, j as int));
                assert(rest.skip(n) =~= s@.skip(j as int));
            }
            let ghost before = out@;
            out.push(s.substring_char(i, j));
            assert(texts(out@) =~= texts(before).push(s@.subrange(i as int, j as int)));
            assert(texts(out@) + words(s@.skip(j as int)) =~= texts(before) + (seq![
                s@.subrange(i as int, j as int),
            ] + words(s@.skip(j as int))));
            i = j;
        }
    }
    assert(words(s@.skip(i as int)) =~= Seq::<Seq<char>>::empty());
    assert(texts(out@) =~= words(s@));
    out
}

// ---------------------------------------------------------------------------
// Decimal numbers
// ---------------------------------------------------------------------------

/// The decimal digits `0` to `9`.
pub open spec fn is_digit(c: char) -> bool {
    '0' <= c <= '9'
}

/// The number that the digit `c` stands for.
pub open spec fn digit_value(c: char) -> nat {
    (c as u32 - '0' as u32) as nat
}

/// The digit that stands for `d`.
pub open spec fn digit(d: nat) -> char {
    if d == 0 {
        '0'
    } else if d == 1 {
        '1'
    } else if d == 2 {
        '2'
    } else if d == 3 {
        '3'
    } else if d == 4 {
        '4'
    } else if d == 5 {
        '5'
    } else if d == 6 {
        '6'
    } else if d == 7 {
        '7'
    } else if d == 8 {
        '8'
    } else {
        '9'
    }
}

/// `n` in decimal, without leading zeros.
pub open spec fn decimal(n: nat) -> Seq<char>
    decreases n,
{
    if n < 10 {
        seq![digit(n)]
    } else {
        decimal(n / 10).push(digit(n % 10))
    }
}

/// Every character of `s` is a decimal digit.
pub open spec fn all_digits(s: Seq<char>) -> bool {
    forall|i: int| 0 <= i < s.len() ==> is_digit(#[trigger] s[i])
}

/// The number that the digits `s` write in decimal.
pub open spec fn decimal_value(s: Seq<char>) -> nat
    decreases s.len(),
{
    if s.len() == 0 {
        0
    } else {
        decimal_value(s.drop_last()) * 10 + digit_value(s.last())
    }
}

/// What `s` reads as: digits, behind at most one `+`, whose number fits in 32
/// bits.
pub open spec fn read_u32(s: Seq<char>) -> Option<u32> {
    let digits = if s.len() > 0 && s[0] == '+' {
        s.skip(1)
    } else {
        s
    };
    if digits.len() > 0 && all_digits(digits) && decimal_value(digits) <= u32::MAX {
        Some(decimal_value(digits) as u32)
    } else {
        None
    }
}

/// The text of a single digit.
fn digit_text(d: u64) -> (r: &'static str)
    requires
        d < 10,
    ensures
        r@ == seq![digit(d as nat)],
{
    proof {
        reveal_strlit("0");
        reveal_strlit("1");
        reveal_strlit("2");
        reveal_strlit("3");
        reveal_strlit("4");
        reveal_strlit("5");
        reveal_strlit("6");
        reveal_strlit("7");
        reveal_strlit("8");
        reveal_strlit("9");
    }
    match d {
        0 => "0",
        1 => "1",
        2 => "2",
        3 => "3",
        4 => "4",
        5 => "5",
        6 => "6",
        7 => "7",
        8 => "8",
        _ => "9",
    }
}

/// Appends `n` in decimal to `out`.
pub fn push_decimal(out: &mut String, n: u64)
    ensures
        final(out)@ == old(out)@ + decimal(n as nat),
    decreases n,
{
    if n >= 10 {
        push_decimal(out, n / 10);
    }
    out.append(digit_text(n % 10));
    assert(out@ =~= old(out)@ + decimal(n as nat));
}

/// The number that `s` reads as; `None` where it is not a decimal number of at
/// most 32 bits.
pub fn parse_u32(s: &str) -> (r: Option<u32>)
    ensures
        r == read_u32(s@),
{
    let cs: Vec<char> = chars_of(s);
    let start: usize = if cs.len() > 0 && cs[0] == '+' {
        1
    } else {
        0
    };
    let ghost digits = s@.skip(start as int);
    assert(start == 0 ==> digits =~= s@);
    if start == cs.len() {
        return None;
    }
    let mut value: u64 = 0;
    let mut i: usize = start;
    assert(digits.take(0) =~= Seq::<char>::empty());
    while i < cs.len()
        invariant
            start <= i <= cs@.len(),
            start < cs@.len(),
            cs@ == s@,
            digits == s@.skip(start as int),
            read_u32(s@) == (if digits.len() > 0 && all_digits(digits) && decimal_value(digits)
                <= u32::MAX {
                Some(decimal_value(digits) as u32)
            } else {
                None
            }),
            value <= u32::MAX,
            value == decimal_value(digits.take(i - start)),
            all_digits(digits.take(i - start)),
        decreases cs.len() - i,
    {
        let c: char = cs[i];
        let ghost k = (i - start) as int;
        assert(digits[k] == c);
        if c < '0' || '9' < c {
            assert(!is_digit(digits[k]));
            return None;
        }
        let d: u64 = (c as u32 - '0' as u32) as u64;
        value = value * 10 + d;
        proof {
            assert(digits.take(k + 1).drop_last() =~= digits.take(k));
            assert(digits.take(k + 1).last() == c);
            assert forall|j: int| 0 <= j < k + 1 implies is_digit(
                #[trigger] digits.take(k + 1)[j],
            ) by {
                if j < k {
                    assert(digits.take(k)[j] == digits.take(k + 1)[j]);
                }
            }
        }
        if value > 0xffff_ffff {
            proof {
                lemma_decimal_value_grows(digits, k + 1);
            }
            return None;
        }
        i += 1;
    }
    assert(digits.take(i - start) =~= digits);
    Some(value as u32)
}

/// A longer run of digits never writes a smaller number.
proof fn lemma_decimal_value_grows(s: Seq<char>, n: int)
    requires
        0 <= n <= s.len(),
    ensures
        decimal_value(s.take(n)) <= decimal_value(s),
    decreases s.len(),
{
    if n < s.len() {
        assert(s.drop_last().take(n) =~= s.take(n));
        lemma_decimal_value_grows(s.drop_last(), n);
    } else {
        assert(s.take(n) =~= s);
    }
}

/// Reading what `decimal` writes gives the number back, in digits only.
pub proof fn lemma_decimal_reads_back(n: nat)
    ensures
        decimal(n).len() > 0,
        all_digits(decimal(n)),
        decimal_value(decimal(n)) == n,
        n <= u32::MAX ==> read_u32(decimal(n)) == Some(n as u32),
    decreases n,
{
    if n < 10 {
        assert(decimal(n).drop_last() =~= Seq::<char>::empty());
        assert(decimal_value(Seq::<char>::empty()) == 0);
    } else {
        lemma_decimal_reads_back(n / 10);
        assert(decimal(n).drop_last() =~= decimal(n / 10));
        assert forall|i: int| 0 <= i < decimal(n).len() implies is_digit(
            #[trigger] decimal(n)[i],
        ) by {
            if i < decimal(n / 10).len() {
                assert(decimal(n)[i] == decimal(n / 10)[i]);
            }
        }
    }
    assert(is_digit(decimal(n)[0]));
}

} // verus!
