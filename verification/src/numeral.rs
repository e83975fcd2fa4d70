//! Numerals: a number written with the digits `0`..`9`, `a`..`f` in a base
//! from two to sixteen, padded with leading zeros to a minimum width.
use vstd::arithmetic::div_mod::{lemma_basic_div, lemma_div_decreases, lemma_mod_bound};
use vstd::prelude::*;
use vstd::string::*;

verus! {

/// The digits, each at the place of its value.
pub open spec fn digits() -> Seq<char> {
    "0123456789abcdef"@
}

/// The digit whose value is `d`.
pub open spec fn digit_char(d: nat) -> char
    recommends
        d < 16,
{
    digits()[d as int]
}

/// The value of the digit `c`, and 16 where `c` is no digit.
pub open spec fn digit_value(c: char) -> nat {
    let code = c as u32;
    if 0x30 <= code <= 0x39 {
        (code - 0x30) as nat
    } else if 0x61 <= code <= 0x66 {
        (code - 0x61 + 10) as nat
    } else {
        16
    }
}

/// The width that is left for the digits before the last one.
pub open spec fn narrowed(width: nat) -> nat {
    if width > 0 {
        (width - 1) as nat
    } else {
        0
    }
}

/// `v` in base `base` with at least `width` digits, and at least one: the
/// numeral of `v / base` one digit narrower, then the digit of `v % base`.
pub open spec fn numeral(v: nat, base: nat, width: nat) -> Seq<char>
    decreases v, width,
    via numeral_decreases
{
    if base < 2 {
        Seq::empty()
    } else if v < base && width <= 1 {
        seq![digit_char(v)]
    } else {
        numeral(v / base, base, narrowed(width)).push(digit_char(v % base))
    }
}

#[via_fn]
proof fn numeral_decreases(v: nat, base: nat, width: nat) {
    if base >= 2 && !(v < base && width <= 1) {
        lemma_step_is_smaller(v, base, width);
    }
}

/// Where a numeral has more than one digit, either the quotient by the base
/// is smaller than the number, or the number is zero and digits are left to
/// fill.
proof fn lemma_step_is_smaller(v: nat, base: nat, width: nat)
    requires
        base >= 2,
        v >= base || width > 1,
    ensures
        v / base < v || (v / base == 0 && v == 0 && width > 1),
{
    if v == 0 {
        lemma_basic_div(0, base as int);
    } else {
        lemma_div_decreases(v as int, base as int);
    }
}

/// The number that the digits of `s` spell in base `base`.
pub open spec fn numeral_value(s: Seq<char>, base: nat) -> nat
    decreases s.len(),
{
    if s.len() == 0 {
        0
    } else {
        numeral_value(s.drop_last(), base) * base + digit_value(s.last())
    }
}

/// Each digit has its own value, so no two values share a digit.
pub proof fn lemma_digit_value(d: nat)
    requires
        d < 16,
    ensures
        digit_value(digit_char(d)) == d,
        digit_char(d) == if d < 10 {
            (0x30 + d) as u8 as char
        } else {
            (0x61 + d - 10) as u8 as char
        },
{
    reveal_strlit("0123456789abcdef");
    let s = digits();
    assert(s[0] == '0' && s[1] == '1' && s[2] == '2' && s[3] == '3');
    assert(s[4] == '4' && s[5] == '5' && s[6] == '6' && s[7] == '7');
    assert(s[8] == '8' && s[9] == '9' && s[10] == 'a' && s[11] == 'b');
    assert(s[12] == 'c' && s[13] == 'd' && s[14] == 'e' && s[15] == 'f');
}

/// A numeral spells its number, is at least as long as asked for, holds only
/// digits of its base, and starts with a zero only where the width asks for
/// it.
pub proof fn lemma_numeral(v: nat, base: nat, width: nat)
    requires
        2 <= base <= 16,
    ensures
        numeral_value(numeral(v, base, width), base) == v,
        numeral(v, base, width).len() >= width,
        numeral(v, base, width).len() >= 1,
        forall|i: int|
            0 <= i < numeral(v, base, width).len() ==> digit_value(
                #[trigger] numeral(v, base, width)[i],
            ) < base,
        numeral(v, base, width).len() > width && numeral(v, base, width).len() > 1 ==> digit_value(
            numeral(v, base, width)[0],
        ) != 0,
    decreases v, width,
{
    let s = numeral(v, base, width);
    lemma_mod_bound(v as int, base as int);
    lemma_digit_value(v % base);
    if v < base && width <= 1 {
        lemma_basic_div(v as int, base as int);
        assert(s.drop_last() =~= Seq::<char>::empty());
        assert(numeral_value(s.drop_last(), base) == 0);
        assert(0 * base == 0);
        assert(v % base == v) by {
            vstd::arithmetic::div_mod::lemma_small_mod(v, base);
        }
    } else {
        let head = numeral(v / base, base, narrowed(width));
        lemma_step_is_smaller(v, base, width);
        lemma_numeral(v / base, base, narrowed(width));
        assert(s.drop_last() =~= head);
        assert(s.last() == digit_char(v % base));
        assert(v == (v / base) * base + v % base) by {
            vstd::arithmetic::div_mod::lemma_fundamental_div_mod(v as int, base as int);
            vstd::arithmetic::mul::lemma_mul_is_commutative(base as int, (v / base) as int);
        }
        assert forall|i: int| 0 <= i < s.len() implies digit_value(#[trigger] s[i]) < base by {
            if i < head.len() {
                assert(s[i] == head[i]);
            }
        }
        assert(s[0] == head[0]);
        if s.len() > width && s.len() > 1 {
            if head.len() > 1 {
                assert(head.len() > narrowed(width));
            } else {
                assert(v >= base);
                assert(head.last() == head[0]);
                assert(v / base > 0) by {
                    vstd::arithmetic::div_mod::lemma_div_non_zero(v as int, base as int);
                }
                assert(numeral_value(head, base) == v / base);
                assert(head.drop_last() =~= Seq::<char>::empty());
                assert(numeral_value(head.drop_last(), base) == 0);
                assert(0 * base == 0);
            }
        }
    }
}

/// The one-letter text of the digit whose value is `d`.
fn digit_text(d: u64) -> (text: &'static str)
    requires
        d < 16,
    ensures
        text@ == seq![digit_char(d as nat)],
{
    let all = "0123456789abcdef";
    proof {
        reveal_strlit("0123456789abcdef");
    }
    let text = all.substring_char(d as usize, d as usize + 1);
    assert(text@ =~= seq![digit_char(d as nat)]);
    text
}

/// Appends to `out` the numeral of `v` in base `base` with at least `width`
/// digits.
pub fn write_numeral(out: &mut String, v: u64, base: u64, width: u8)
    requires
        2 <= base <= 16,
    ensures
        final(out)@ == old(out)@ + numeral(v as nat, base as nat, width as nat),
    decreases v, width,
{
    let ghost before = out@;
    if v >= base || width > 1 {
        let narrower: u8 = if width > 0 {
            width - 1
        } else {
            0
        };
        proof {
            lemma_step_is_smaller(v as nat, base as nat, width as nat);
        }
        write_numeral(out, v / base, base, narrower);
    }
    proof {
        lemma_mod_bound(v as int, base as int);
        if v < base {
            vstd::arithmetic::div_mod::lemma_small_mod(v as nat, base as nat);
        }
    }
    out.append(digit_text(v % base));
    assert(out@ =~= before + numeral(v as nat, base as nat, width as nat));
}

} // verus!
