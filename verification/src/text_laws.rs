//! Laws of the text primitives, over the models that the contracts of
//! [`text`](crate::text) use.

use crate::text;
use vstd::prelude::*;

verus! {

// ---------------------------------------------------------------------------
// Prefixes and trailing characters
// ---------------------------------------------------------------------------

/// What follows a prefix is the text that, put behind the prefix, gives the
/// whole.
pub proof fn law_prefix_and_rest_make_the_whole(
    s: Seq<char>,
    prefix: Seq<char>,
    rest: Seq<char>,
)
    ensures
        text::after_prefix(s, prefix) == Some(rest) <==> s == prefix + rest,
{
    if s == prefix + rest {
        assert(prefix =~= s.subrange(0, prefix.len() as int));
        assert(s.skip(prefix.len() as int) =~= rest);
    }
    if text::after_prefix(s, prefix) == Some(rest) {
        assert(s =~= prefix + rest);
    }
}

/// Leading copies of a prefix do not count, and nothing else is taken off the
/// front of a text.
pub proof fn law_leading_copies_do_not_count(s: Seq<char>, prefix: Seq<char>)
    ensures
        prefix.len() > 0 ==> text::without_leading(prefix + s, prefix) == text::without_leading(
            s,
            prefix,
        ),
        (forall|rest: Seq<char>| s != #[trigger] (prefix + rest)) ==> text::without_leading(
            s,
            prefix,
        ) == s,
        prefix.len() == 0 ==> text::without_leading(s, prefix) == s,
        prefix.len() > 0 ==> forall|rest: Seq<char>|
            text::without_leading(s, prefix) != #[trigger] (prefix + rest),
    decreases s.len(),
{
    if prefix.len() > 0 {
        law_prefix_and_rest_make_the_whole(prefix + s, prefix, s);
    }
    if prefix.is_prefix_of(s) {
        let rest = s.skip(prefix.len() as int);
        assert(s =~= prefix + rest);
        if prefix.len() > 0 {
            law_leading_copies_do_not_count(rest, prefix);
        }
    } else {
        assert forall|rest: Seq<char>| s != #[trigger] (prefix + rest) by {
            law_prefix_and_rest_make_the_whole(s, prefix, rest);
        }
    }
}

/// Trailing copies of a character do not count, and nothing else is taken off
/// the end of a text.
pub proof fn law_trailing_copies_do_not_count(s: Seq<char>, c: char)
    ensures
        text::without_trailing(s.push(c), c) == text::without_trailing(s, c),
        s.len() == 0 || s[s.len() - 1] != c ==> text::without_trailing(s, c) == s,
        text::without_trailing(s, c).len() == 0 || text::without_trailing(
            s,
            c,
        )[text::without_trailing(s, c).len() - 1] != c,
    decreases s.len(),
{
    assert(s.push(c).drop_last() =~= s);
    if s.len() > 0 && s.last() == c {
        law_trailing_copies_do_not_count(s.drop_last(), c);
    }
}

// ---------------------------------------------------------------------------
// Lines
// ---------------------------------------------------------------------------

/// The first line ends at the first line feed, or at a carriage return and line
/// feed, or at the end of the text; what follows it has no influence on it.
pub proof fn law_first_line_ends_at_its_terminator(line: Seq<char>, rest: Seq<char>)
    requires
        forall|i: int| 0 <= i < line.len() ==> #[trigger] line[i] != '\n',
    ensures
        text::first_line(line) == line,
        line.len() == 0 || line[line.len() - 1] != '\r' ==> text::first_line(
            line + seq!['\n'] + rest,
        ) == line,
        text::first_line(line + seq!['\r', '\n'] + rest) == line,
{
    text::lemma_length_before(line, text::line_feed(), line.len() as int);
    assert(line.take(line.len() as int) =~= line);

    let fed = line + seq!['\n'] + rest;
    assert forall|i: int| 0 <= i < line.len() implies !text::line_feed()(#[trigger] fed[i]) by {
        assert(fed[i] == line[i]);
    }
    assert(fed[line.len() as int] == '\n');
    text::lemma_length_before(fed, text::line_feed(), line.len() as int);
    assert(line.len() > 0 ==> fed[line.len() - 1] == line[line.len() - 1]);
    assert(fed.take(line.len() as int) =~= line);

    let n = (line.len() + 1) as int;
    let returned = line + seq!['\r', '\n'] + rest;
    assert forall|i: int| 0 <= i < n implies !text::line_feed()(#[trigger] returned[i]) by {
        if i < line.len() {
            assert(returned[i] == line[i]);
        }
    }
    assert(returned[n] == '\n');
    assert(returned[n - 1] == '\r');
    text::lemma_length_before(returned, text::line_feed(), n);
    assert(returned.take(n - 1) =~= line);
}

/// What follows the first line feed is found whatever stands before it.
pub proof fn law_rest_follows_the_first_line_feed(line: Seq<char>, rest: Seq<char>)
    requires
        forall|i: int| 0 <= i < line.len() ==> #[trigger] line[i] != '\n',
    ensures
        text::after_first_line(line + seq!['\n'] + rest) == rest,
        text::after_first_line(line).len() == 0,
{
    text::lemma_length_before(line, text::line_feed(), line.len() as int);
    let fed = line + seq!['\n'] + rest;
    assert forall|i: int| 0 <= i < line.len() implies !text::line_feed()(#[trigger] fed[i]) by {
        assert(fed[i] == line[i]);
    }
    assert(fed[line.len() as int] == '\n');
    text::lemma_length_before(fed, text::line_feed(), line.len() as int);
    assert(fed.skip((line.len() + 1) as int) =~= rest);
}

// ---------------------------------------------------------------------------
// Words
// ---------------------------------------------------------------------------

/// White space before a text adds no word to it, and an empty text has none.
pub proof fn law_white_space_adds_no_word(c: char, s: Seq<char>)
    ensures
        text::words(Seq::<char>::empty()).len() == 0,
        text::is_white_space(c) ==> text::words(seq![c] + s) == text::words(s),
{
    assert((seq![c] + s).skip(1) =~= s);
}

/// A run of other characters, up to white space or the end, is one word, and
/// the words of what follows come behind it.
pub proof fn law_run_is_one_word(word: Seq<char>, rest: Seq<char>)
    requires
        word.len() > 0,
        forall|i: int| 0 <= i < word.len() ==> !text::is_white_space(#[trigger] word[i]),
        rest.len() > 0 ==> text::is_white_space(rest[0]),
    ensures
        text::words(word + rest) == seq![word] + text::words(rest),
{
    let s = word + rest;
    assert forall|i: int| 0 <= i < word.len() implies !text::blank()(#[trigger] s[i]) by {
        assert(s[i] == word[i]);
    }
    assert(s[0] == word[0]);
    text::lemma_length_before(s, text::blank(), word.len() as int);
    assert(s.take(word.len() as int) =~= word);
    assert(s.skip(word.len() as int) =~= rest);
}

/// `texts` lists what each string holds, in order.
pub proof fn law_texts_are_what_strings_hold(parts: Seq<&str>)
    ensures
        text::texts(parts).len() == parts.len(),
        forall|i: int| 0 <= i < parts.len() ==> #[trigger] text::texts(parts)[i] == parts[i]@,
{
}

/// The space is white space; letters, digits and punctuation of ASCII are not.
pub proof fn law_visible_ascii_is_no_white_space(c: char)
    ensures
        text::is_white_space(' '),
        text::is_white_space('\t'),
        text::is_white_space('\n'),
        text::is_white_space('\r'),
        '!' <= c <= '~' ==> !text::is_white_space(c),
{
}

// ---------------------------------------------------------------------------
// Decimal numbers
// ---------------------------------------------------------------------------

/// A number is written digit by digit, the last digit last.
pub proof fn law_decimal_appends_the_last_digit(n: nat, d: nat)
    requires
        d < 10,
    ensures
        text::decimal(d) == seq![(48 + d) as char],
        n > 0 ==> text::decimal(n * 10 + d) == text::decimal(n).push((48 + d) as char),
{
    assert(text::digit(d) == (48 + d) as char);
    assert((n * 10 + d) / 10 == n && (n * 10 + d) % 10 == d) by (nonlinear_arith)
        requires
            d < 10,
    ;
}

/// Different numbers are written differently.
pub proof fn law_decimal_tells_numbers_apart(m: nat, n: nat)
    ensures
        text::decimal(m) == text::decimal(n) <==> m == n,
{
    text::lemma_decimal_reads_back(m);
    text::lemma_decimal_reads_back(n);
}

/// Reading a number goes digit by digit: a further digit makes ten times the
/// number plus the digit, as long as that fits in 32 bits; nothing follows any
/// other character, and what could not be read does not become readable.
pub proof fn law_reading_goes_digit_by_digit(s: Seq<char>, c: char)
    ensures
        ({
            let read = text::read_u32(s);
            let next = text::read_u32(s.push(c));
            let d = c as u32 - 48;
            &&& !('0' <= c <= '9') ==> next is None
            &&& '0' <= c <= '9' && (s.len() == 0 || s == seq!['+']) ==> next == Some(d as u32)
            &&& '0' <= c <= '9' && s.len() > 0 && s != seq!['+'] ==> match read {
                Some(v) => if v * 10 + d <= u32::MAX {
                    next == Some((v * 10 + d) as u32)
                } else {
                    next is None
                },
                None => next is None,
            }
        }),
{
    let t = s.push(c);
    let signed = t.len() > 0 && t[0] == '+';
    let digits = if signed {
        t.skip(1)
    } else {
        t
    };
    if s.len() == 0 {
        if signed {
            assert(digits.len() == 0);
        } else {
            assert(digits.drop_last() =~= Seq::<char>::empty());
            assert(digits.last() == c);
            assert(text::decimal_value(Seq::<char>::empty()) == 0);
            assert(digits[0] == c);
        }
    } else {
        assert(t[0] == s[0]);
        let before = if signed {
            s.skip(1)
        } else {
            s
        };
        assert(digits =~= before.push(c));
        assert(digits.drop_last() =~= before);
        assert(digits[digits.len() - 1] == c);
        if text::all_digits(digits) {
            assert forall|i: int| 0 <= i < before.len() implies text::is_digit(
                #[trigger] before[i],
            ) by {
                assert(before[i] == digits[i]);
            }
        }
        if text::all_digits(before) && '0' <= c <= '9' {
            assert forall|i: int| 0 <= i < digits.len() implies text::is_digit(
                #[trigger] digits[i],
            ) by {
                if i < before.len() {
                    assert(before[i] == digits[i]);
                }
            }
        }
        if before.len() == 0 {
            assert(s =~= seq!['+']);
            assert(text::decimal_value(before) == 0);
        }
    }
}

/// Nothing is no number, and one sign before the digits changes nothing.
pub proof fn law_one_sign_changes_nothing(s: Seq<char>)
    ensures
        text::read_u32(Seq::<char>::empty()) is None,
        s.len() > 0 && s[0] != '+' ==> text::read_u32(seq!['+'] + s) == text::read_u32(s),
        s.len() == 0 || s[0] == '+' ==> text::read_u32(seq!['+'] + s) is None,
{
    let signed = seq!['+'] + s;
    assert(signed.skip(1) =~= s);
    if s.len() > 0 && s[0] == '+' {
        assert(!text::is_digit(s[0]));
    }
}

} // verus!
