//! Reading the number of a thread out of the debug form of its id, which
//! looks like `ThreadId(7)`.
use crate::numeral::{digit_value, numeral_value};
use vstd::prelude::*;
use vstd::string::*;

verus! {

/// `text` without `prefix` at its start; a text that does not start with
/// `prefix` is left as it is.
pub open spec fn without_prefix(text: Seq<char>, prefix: Seq<char>) -> Seq<char> {
    if prefix.is_prefix_of(text) {
        text.skip(prefix.len() as int)
    } else {
        text
    }
}

/// `text` without `suffix` at its end; a text that does not end with
/// `suffix` is left as it is.
pub open spec fn without_suffix(text: Seq<char>, suffix: Seq<char>) -> Seq<char> {
    if suffix.is_suffix_of(text) {
        text.take(text.len() - suffix.len())
    } else {
        text
    }
}

/// Whether `text` is one or more of the digits `0` to `9`.
pub open spec fn is_decimal(text: Seq<char>) -> bool {
    &&& text.len() > 0
    &&& forall|i: int| 0 <= i < text.len() ==> digit_value(#[trigger] text[i]) < 10
}

/// The number that `text` spells: decimal digits, with or without a plus
/// sign before them, that give a number within `u64`. Any other text spells
/// no number.
pub open spec fn unsigned_of(text: Seq<char>) -> Option<u64> {
    let digits = without_prefix(text, seq!['+']);
    if is_decimal(digits) && numeral_value(digits, 10) <= u64::MAX {
        Some(numeral_value(digits, 10) as u64)
    } else {
        None
    }
}

/// The number in the debug form of a thread's id: what is left of the text
/// without `ThreadId(` at its start and then without `)` at its end, read as
/// a number; zero where that spells no number.
pub open spec fn thread_number_of(debug: Seq<char>) -> u64 {
    match unsigned_of(without_suffix(without_prefix(debug, "ThreadId("@), ")"@)) {
        Some(number) => number,
        None => 0,
    }
}

/// A numeral is worth at least as much as any of its beginnings.
pub proof fn lemma_value_grows(text: Seq<char>, base: nat, k: int)
    requires
        base >= 1,
        0 <= k <= text.len(),
    ensures
        numeral_value(text.take(k), base) <= numeral_value(text, base),
    decreases text.len() - k,
{
    if k == text.len() {
        assert(text.take(k) =~= text);
    } else {
        lemma_value_grows(text, base, k + 1);
        let longer = text.take(k + 1);
        assert(longer.drop_last() =~= text.take(k));
        assert(numeral_value(text.take(k), base) * base >= numeral_value(text.take(k), base))
            by (nonlinear_arith)
            requires
                base >= 1,
        ;
    }
}

/// Whether `text` starts with `prefix`.
fn has_prefix(text: &str, prefix: &str) -> (found: bool)
    ensures
        found == prefix@.is_prefix_of(text@),
{
    let len = text.unicode_len();
    let short = prefix.unicode_len();
    if short > len {
        return false;
    }
    let mut i: usize = 0;
    while i < short
        invariant
            i <= short <= len,
            short == prefix@.len(),
            len == text@.len(),
            forall|j: int| 0 <= j < i ==> text@[j] == prefix@[j],
        decreases short - i,
    {
        if text.get_char(i) != prefix.get_char(i) {
            assert(text@.subrange(0, short as int)[i as int] == text@[i as int]);
            return false;
        }
        i = i + 1;
    }
    assert(prefix@ =~= text@.subrange(0, short as int));
    true
}

/// Whether `text` ends with `suffix`.
fn has_suffix(text: &str, suffix: &str) -> (found: bool)
    ensures
        found == suffix@.is_suffix_of(text@),
{
    let len = text.unicode_len();
    let short = suffix.unicode_len();
    if short > len {
        return false;
    }
    let from = len - short;
    let mut i: usize = 0;
    while i < short
        invariant
            i <= short <= len,
            from == len - short,
            short == suffix@.len(),
            len == text@.len(),
            forall|j: int| 0 <= j < i ==> text@[from + j] == suffix@[j],
        decreases short - i,
    {
        if text.get_char(from + i) != suffix.get_char(i) {
            assert(text@.subrange(from as int, len as int)[i as int] == text@[from + i]);
            return false;
        }
        i = i + 1;
    }
    assert(suffix@ =~= text@.subrange(from as int, len as int));
    true
}

/// Takes `prefix` off the start of `text`, where it is there.
pub fn strip_prefix<'a>(text: &'a str, prefix: &str) -> (rest: &'a str)
    ensures
        rest@ == without_prefix(text@, prefix@),
{
    if has_prefix(text, prefix) {
        text.substring_char(prefix.unicode_len(), text.unicode_len())
    } else {
        text
    }
}

/// Takes `suffix` off the end of `text`, where it is there.
pub fn strip_suffix<'a>(text: &'a str, suffix: &str) -> (rest: &'a str)
    ensures
        rest@ == without_suffix(text@, suffix@),
{
    if has_suffix(text, suffix) {
        text.substring_char(0, text.unicode_len() - suffix.unicode_len())
    } else {
        text
    }
}

/// Reads `text` as a number.
pub fn parse_unsigned(text: &str) -> (number: Option<u64>)
    ensures
        number == unsigned_of(text@),
{
    let digits = strip_prefix(text, "+");
    proof {
        reveal_strlit("+");
        assert("+"@ =~= seq!['+']);
    }
    let len = digits.unicode_len();
    if len == 0 {
        return None;
    }
    let mut value: u64 = 0;
    let mut i: usize = 0;
    while i < len
        invariant
            i <= len,
            len == digits@.len(),
            digits@ == without_prefix(text@, seq!['+']),
            forall|j: int| 0 <= j < i ==> digit_value(#[trigger] digits@[j]) < 10,
            value == numeral_value(digits@.take(i as int), 10),
        decreases len - i,
    {
        let c = digits.get_char(i);
        if c < '0' || c > '9' {
            assert(digit_value(digits@[i as int]) >= 10);
            return None;
        }
        let digit: u64 = (c as u64) - 48;
        proof {
            let longer = digits@.take(i + 1);
            assert(longer.drop_last() =~= digits@.take(i as int));
            assert(longer.last() == c);
            assert(digit == digit_value(c));
            assert(numeral_value(longer, 10) == value * 10 + digit);
            lemma_value_grows(digits@, 10, i + 1);
        }
        if value > (u64::MAX - digit) / 10 {
            return None;
        }
        value = value * 10 + digit;
        i = i + 1;
    }
    assert(digits@.take(len as int) =~= digits@);
    Some(value)
}

/// Reads the number of a thread out of the debug form of its id.
pub fn thread_number(debug: &str) -> (number: u64)
    ensures
        number == thread_number_of(debug@),
{
    let inner = strip_suffix(strip_prefix(debug, "ThreadId("), ")");
    match parse_unsigned(inner) {
        Some(number) => number,
        None => 0,
    }
}

} // verus!
