//! Facts and helpers on texts as sequences of characters: leading runs of
//! characters of one kind, and numbers written in decimal digits.

use vstd::prelude::*;
use vstd::std_specs::iter::IteratorSpec;

verus! {

/// Whether `c` is one of the ten ASCII digits.
pub open spec fn is_digit(c: char) -> bool {
    '0' <= c <= '9'
}

/// The characters that are ASCII digits.
pub open spec fn digits() -> spec_fn(char) -> bool {
    |c: char| is_digit(c)
}

/// The characters equal to `c`.
pub open spec fn only(c: char) -> spec_fn(char) -> bool {
    |d: char| d == c
}

/// The characters other than `c`.
pub open spec fn all_but(c: char) -> spec_fn(char) -> bool {
    |d: char| d != c
}

/// Length of the longest prefix of `text` whose characters all satisfy
/// `keep`.
pub open spec fn run_len(text: Seq<char>, keep: spec_fn(char) -> bool) -> nat
    decreases text.len(),
{
    if text.len() > 0 && keep(text[0]) {
        1 + run_len(text.drop_first(), keep)
    } else {
        0
    }
}

/// The number that a run of ASCII digits writes in base ten.
pub open spec fn decimal_value(digits: Seq<char>) -> nat
    decreases digits.len(),
{
    if digits.len() == 0 {
        0
    } else {
        (decimal_value(digits.drop_last()) * 10 + (digits.last() as nat - '0' as nat)) as nat
    }
}

/// Whether every character of `text` is an ASCII digit.
pub open spec fn all_digits(text: Seq<char>) -> bool {
    forall|i: int| 0 <= i < text.len() ==> is_digit(#[trigger] text[i])
}

/// The run lies within the text, all its characters satisfy `keep`, and the
/// text either ends after it or goes on with a character that does not.
pub proof fn lemma_run(text: Seq<char>, keep: spec_fn(char) -> bool)
    ensures
        run_len(text, keep) <= text.len(),
        forall|i: int| 0 <= i < run_len(text, keep) ==> keep(#[trigger] text[i]),
        run_len(text, keep) < text.len() ==> !keep(text[run_len(text, keep) as int]),
    decreases text.len(),
{
    if text.len() > 0 && keep(text[0]) {
        let rest = text.drop_first();
        lemma_run(rest, keep);
        assert forall|i: int| 0 <= i < run_len(text, keep) implies keep(#[trigger] text[i]) by {
            if i > 0 {
                assert(text[i] == rest[i - 1]);
            }
        }
    }
}

/// A prefix whose characters all satisfy `keep`, and which ends the text or
/// is followed by a character that does not, is the whole run.
pub proof fn lemma_run_unique(text: Seq<char>, keep: spec_fn(char) -> bool, n: int)
    requires
        0 <= n <= text.len(),
        forall|i: int| 0 <= i < n ==> keep(#[trigger] text[i]),
        n < text.len() ==> !keep(text[n]),
    ensures
        run_len(text, keep) == n,
    decreases text.len(),
{
    if n > 0 {
        let rest = text.drop_first();
        assert forall|i: int| 0 <= i < n - 1 implies keep(#[trigger] rest[i]) by {
            assert(rest[i] == text[i + 1]);
        }
        lemma_run_unique(rest, keep, n - 1);
    }
}

/// Collects the characters of a text.
pub fn chars_of(text: &str) -> (chars: Vec<char>)
    ensures
        chars@ == text@,
{
    let mut source = text.chars();
    let mut chars: Vec<char> = Vec::new();
    loop
        invariant_except_break
            source.remaining() == text@.subrange(chars@.len() as int, text@.len() as int),
        invariant
            chars@.len() <= text@.len(),
            chars@ == text@.take(chars@.len() as int),
        ensures
            chars@.len() == text@.len(),
        decreases text@.len() - chars@.len(),
    {
        match source.next() {
            Some(c) => {
                chars.push(c);
            },
            None => {
                break ;
            },
        }
    }
    chars
}

/// The value of the digit `c`.
pub fn digit_value(c: char) -> (value: u8)
    requires
        is_digit(c),
    ensures
        value == c as nat - '0' as nat,
        value <= 9,
{
    ((c as u32) - ('0' as u32)) as u8
}

/// Whether `c` is one of the ten ASCII digits.
pub fn is_ascii_digit(c: char) -> (digit: bool)
    ensures
        digit == is_digit(c),
{
    c >= '0' && c <= '9'
}

/// Position at which the run of ASCII digits that starts at `from` ends.
pub fn digits_end(chars: &Vec<char>, from: usize) -> (end: usize)
    requires
        from <= chars@.len(),
    ensures
        from <= end <= chars@.len(),
        end - from == run_len(chars@.skip(from as int), digits()),
{
    let ghost rest = chars@.skip(from as int);
    let mut end: usize = from;
    while end < chars.len() && is_ascii_digit(chars[end])
        invariant
            from <= end <= chars@.len(),
            rest == chars@.skip(from as int),
            forall|i: int| 0 <= i < end - from ==> is_digit(#[trigger] rest[i]),
        decreases chars@.len() - end,
    {
        end += 1;
    }
    proof {
        lemma_run_unique(rest, digits(), end - from);
    }
    end
}

/// Position at which the run of characters that starts at `from` ends, the
/// run of characters equal to `c` where `equal` is set and of characters
/// other than `c` where it is not.
pub fn run_end(chars: &Vec<char>, from: usize, c: char, equal: bool) -> (end: usize)
    requires
        from <= chars@.len(),
    ensures
        from <= end <= chars@.len(),
        end - from == run_len(
            chars@.skip(from as int),
            if equal {
                only(c)
            } else {
                all_but(c)
            },
        ),
{
    let ghost rest = chars@.skip(from as int);
    let ghost keep = if equal {
        only(c)
    } else {
        all_but(c)
    };
    let mut end: usize = from;
    while end < chars.len() && (chars[end] == c) == equal
        invariant
            from <= end <= chars@.len(),
            rest == chars@.skip(from as int),
            keep == if equal {
                only(c)
            } else {
                all_but(c)
            },
            forall|i: int| 0 <= i < end - from ==> keep(#[trigger] rest[i]),
        decreases chars@.len() - end,
    {
        end += 1;
    }
    proof {
        lemma_run_unique(rest, keep, end - from);
    }
    end
}

/// Reads the number that the characters from `from` up to `to` write in
/// decimal digits, if they are digits, at least one, and the number is at
/// most `max`.
pub fn parse_decimal(chars: &Vec<char>, from: usize, to: usize, max: u64) -> (number: Option<u64>)
    requires
        from <= to <= chars@.len(),
    ensures
        number == decimal_number(chars@.subrange(from as int, to as int), max),
{
    let ghost text = chars@.subrange(from as int, to as int);
    let mut value: u64 = 0;
    let mut at: usize = from;
    while at < to
        invariant
            from <= at <= to <= chars@.len(),
            text == chars@.subrange(from as int, to as int),
            all_digits(text.take(at - from)),
            value == decimal_value(text.take(at - from)),
            value <= max,
        decreases to - at,
    {
        let c: char = chars[at];
        assert(c == text[at - from]);
        if !is_ascii_digit(c) {
            return None;
        }
        let ghost longer = text.take(at - from + 1);
        proof {
            assert(longer.drop_last() =~= text.take(at - from));
            lemma_decimal_value_grows(text, at - from + 1);
        }
        let digit: u64 = digit_value(c) as u64;
        let next: Option<u64> = match value.checked_mul(10) {
            Some(tenfold) => tenfold.checked_add(digit),
            None => None,
        };
        match next {
            Some(sum) => {
                if sum > max {
                    return None;
                }
                value = sum;
            },
            None => {
                return None;
            },
        }
        assert(all_digits(longer));
        at += 1;
    }
    assert(text.take(to - from) =~= text);
    if at == from {
        None
    } else {
        Some(value)
    }
}

/// The number that a text writes in decimal digits: the text must consist
/// of digits, at least one, and write a number of at most `max`.
pub open spec fn decimal_number(text: Seq<char>, max: u64) -> Option<u64> {
    if text.len() > 0 && all_digits(text) && decimal_value(text) <= max {
        Some(decimal_value(text) as u64)
    } else {
        None
    }
}

/// The value of a run of digits is at least the value of each of its
/// prefixes.
pub proof fn lemma_decimal_value_grows(digits: Seq<char>, n: int)
    requires
        0 <= n <= digits.len(),
        all_digits(digits.take(n)),
    ensures
        all_digits(digits) ==> decimal_value(digits.take(n)) <= decimal_value(digits),
    decreases digits.len() - n,
{
    if all_digits(digits) {
        if n < digits.len() {
            let longer = digits.take(n + 1);
            assert(longer.drop_last() =~= digits.take(n));
            assert(all_digits(longer));
            lemma_decimal_value_grows(digits, n + 1);
        } else {
            assert(digits.take(n) =~= digits);
        }
    }
}

} // verus!
