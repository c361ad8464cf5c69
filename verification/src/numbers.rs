//! Reading unsigned decimal numbers the way `str::parse` does for unsigned integer types.
use vstd::prelude::*;

verus! {

/// Whether `c` is an ASCII decimal digit.
pub open spec fn is_digit(c: char) -> bool {
    '0' <= c && c <= '9'
}

/// The value of a decimal digit.
pub open spec fn digit_value(c: char) -> nat {
    ((c as u32) - ('0' as u32)) as nat
}

/// The value of a sequence of decimal digits (0 for none).
pub open spec fn digits_value(s: Seq<char>) -> nat
    decreases s.len(),
{
    if s.len() == 0 {
        0
    } else {
        digits_value(s.drop_last()) * 10 + digit_value(s.last())
    }
}

/// The digits part of a number's text: the text without one leading `+`.
pub open spec fn unsigned_digits(s: Seq<char>) -> Seq<char> {
    if s.len() > 0 && s[0] == '+' {
        s.drop_first()
    } else {
        s
    }
}

/// The value an unsigned integer type reads from `s`: an optional `+` and then one or more
/// decimal digits; `None` for any other text.
pub open spec fn unsigned_text_value(s: Seq<char>) -> Option<nat> {
    let d = unsigned_digits(s);
    if d.len() > 0 && forall|i: int| 0 <= i < d.len() ==> is_digit(#[trigger] d[i]) {
        Some(digits_value(d))
    } else {
        None
    }
}

/// The value read from `s` when it is a number no larger than `max`.
pub open spec fn bounded_value(s: Seq<char>, max: u64) -> Option<u64> {
    match unsigned_text_value(s) {
        Some(v) => if v <= max {
            Some(v as u64)
        } else {
            None
        },
        None => None,
    }
}

proof fn lemma_digits_value_step(s: Seq<char>, i: int)
    requires
        0 <= i < s.len(),
    ensures
        digits_value(s.take(i + 1)) == digits_value(s.take(i)) * 10 + digit_value(s[i]),
{
    assert(s.take(i + 1).drop_last() =~= s.take(i));
}

proof fn lemma_digits_value_grows(s: Seq<char>, i: int)
    requires
        0 <= i <= s.len(),
    ensures
        digits_value(s.take(i)) <= digits_value(s),
    decreases s.len() - i,
{
    if i < s.len() {
        lemma_digits_value_step(s, i);
        lemma_digits_value_grows(s, i + 1);
    } else {
        assert(s.take(i) =~= s);
    }
}

/// Reads an unsigned number no larger than `max` from `s`.
pub fn parse_bounded(s: &str, max: u64) -> (r: Option<u64>)
    requires
        max >= 9,
    ensures
        r == bounded_value(s@, max),
{
    broadcast use vstd::string::group_string_axioms;
    let ghost d = unsigned_digits(s@);
    let mut acc: u64 = 0;
    let mut first = true;
    let mut any_digit = false;
    for c in it: s.chars()
        invariant
            it.seq() == s@,
            d == unsigned_digits(s@),
            max >= 9,
            first == (it.index() == 0),
            it.index() <= s@.len(),
            !any_digit ==> acc == 0,
            ({
                let skip: int = if s@.len() > 0 && s@[0] == '+' { 1 } else { 0 };
                let index = it.index();
                &&& index >= skip ==> any_digit == (index > skip)
                &&& index < skip ==> !any_digit
                &&& index >= skip ==> forall|j: int| 0 <= j < index - skip ==> is_digit(#[trigger] d[j])
                &&& index >= skip ==> acc == digits_value(d.take(index - skip))
                &&& acc <= max
            }),
    {
        let ghost skip: int = if s@.len() > 0 && s@[0] == '+' { 1 } else { 0 };
        let ghost index = it.index();
        if !(first && c == '+') {
            proof {
                assert(index >= skip);
                assert(d[index - skip] == s@[index as int]);
            }
            if !('0' <= c && c <= '9') {
                return None;
            }
            let dv = (c as u32 - '0' as u32) as u64;
            proof {
                lemma_digits_value_step(d, index - skip);
            }
            if acc > (max - dv) / 10 {
                proof {
                    assert(acc * 10 + dv > max) by (nonlinear_arith)
                        requires acc > (max - dv) / 10, dv <= 9, dv <= max;
                    lemma_digits_value_grows(d, index - skip + 1);
                }
                return None;
            }
            proof {
                assert(acc * 10 + dv <= max) by (nonlinear_arith)
                    requires acc <= (max - dv) / 10, dv <= max;
            }
            acc = acc * 10 + dv;
            any_digit = true;
        }
        first = false;
    }
    let ghost index = s@.len();
    if !any_digit {
        return None;
    }
    proof {
        let skip: int = if s@.len() > 0 && s@[0] == '+' { 1 } else { 0 };
        assert(d.take(index - skip) =~= d);
    }
    Some(acc)
}

} // verus!
