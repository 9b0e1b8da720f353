//! The words that write a number with a fraction.
//!
//! A number is an optional sign, then `inf`, `infinity` or `nan` in letters
//! of either case, or digits with at most one point among them and at least
//! one digit, which an exponent may follow: the letter `e` of either case, an
//! optional sign, and at least one digit.

use crate::text::{at_line_end, is_line_end, skip_blanks, skip_blanks_from, word_end, word_end_from};
use vstd::prelude::*;

verus! {

/// Whether `b` is a decimal digit.
pub open spec fn is_decimal_digit(b: u8) -> bool {
    48 <= b && b <= 57
}

/// Whether `b` is a sign.
pub open spec fn is_sign(b: u8) -> bool {
    b == 43 || b == 45
}

/// The small letter of `b`, where it is a capital letter of ASCII.
pub open spec fn lowered(b: u8) -> u8 {
    if 65 <= b && b <= 90 {
        (b + 32) as u8
    } else {
        b
    }
}

/// The first place at or after `i` where no digit stands.
pub open spec fn digits_end(w: Seq<u8>, i: int) -> int
    decreases w.len() - i,
{
    if 0 <= i && i < w.len() && is_decimal_digit(w[i]) {
        digits_end(w, i + 1)
    } else {
        i
    }
}

/// Whether `w[from..]`, in small letters, is the word `word`.
pub open spec fn spells(w: Seq<u8>, from: int, word: Seq<u8>) -> bool {
    w.len() - from == word.len() && forall|k: int|
        0 <= k < word.len() ==> lowered(#[trigger] w[from + k]) == word[k]
}

/// The letters `inf`.
pub open spec fn inf_word() -> Seq<u8> {
    seq![105u8, 110u8, 102u8]
}

/// The letters `infinity`.
pub open spec fn infinity_word() -> Seq<u8> {
    seq![105u8, 110u8, 102u8, 105u8, 110u8, 105u8, 116u8, 121u8]
}

/// The letters `nan`.
pub open spec fn nan_word() -> Seq<u8> {
    seq![110u8, 97u8, 110u8]
}

/// Whether `w[from..]` is an exponent: `e`, an optional sign, digits to the
/// end.
pub open spec fn is_exponent(w: Seq<u8>, from: int) -> bool {
    let digits = if from + 1 < w.len() && is_sign(w[from + 1]) {
        from + 2
    } else {
        from + 1
    };
    from < w.len() && lowered(w[from]) == 101 && digits < w.len() && digits_end(w, digits)
        == w.len()
}

/// Whether `w[from..]` is digits with at most one point among them and at
/// least one digit, which an exponent may follow.
pub open spec fn is_decimal(w: Seq<u8>, from: int) -> bool {
    let whole_end = digits_end(w, from);
    let has_point = whole_end < w.len() && w[whole_end] == 46;
    let fraction_start = if has_point {
        whole_end + 1
    } else {
        whole_end
    };
    let fraction_end = digits_end(w, fraction_start);
    let digit_count = (whole_end - from) + (fraction_end - fraction_start);
    digit_count > 0 && (fraction_end == w.len() || is_exponent(w, fraction_end))
}

/// Whether the word writes a number.
pub open spec fn is_float(w: Seq<u8>) -> bool {
    let from: int = if w.len() > 0 && is_sign(w[0]) {
        1
    } else {
        0
    };
    spells(w, from, inf_word()) || spells(w, from, infinity_word()) || spells(w, from, nan_word())
        || is_decimal(w, from)
}

/// Whether the next `k` words of the line from `i` on are there and write
/// numbers.
pub open spec fn has_numbers(s: Seq<u8>, i: int, k: nat) -> bool
    decreases k,
{
    if k == 0 {
        true
    } else {
        let a = skip_blanks(s, i);
        !at_line_end(s, a) && is_float(s.subrange(a, word_end(s, a))) && has_numbers(
            s,
            word_end(s, a),
            (k - 1) as nat,
        )
    }
}

/// The first word of the line, where it writes a number.
pub open spec fn leading_number(s: Seq<u8>) -> Option<Seq<u8>> {
    let a = skip_blanks(s, 0);
    if !at_line_end(s, a) && is_float(s.subrange(a, word_end(s, a))) {
        Some(s.subrange(a, word_end(s, a)))
    } else {
        None
    }
}

/// Finds the first place at or after `i` where no digit stands.
fn digits_end_from(w: &[u8], i: usize) -> (r: usize)
    requires
        i <= w.len(),
    ensures
        r == digits_end(w@, i as int),
        i <= r <= w.len(),
{
    let mut j = i;
    while j < w.len() && 48 <= w[j] && w[j] <= 57
        invariant
            i <= j <= w.len(),
            digits_end(w@, i as int) == digits_end(w@, j as int),
        decreases w.len() - j,
    {
        j = j + 1;
    }
    j
}

/// The small letter of `b`.
fn lower(b: u8) -> (r: u8)
    ensures
        r == lowered(b),
{
    if 65 <= b && b <= 90 {
        b + 32
    } else {
        b
    }
}

/// Whether `w[from..]`, in small letters, is `inf`, `infinity` or `nan`.
fn spells_special(w: &[u8], from: usize) -> (r: bool)
    requires
        from <= w.len(),
    ensures
        r == (spells(w@, from as int, inf_word()) || spells(w@, from as int, infinity_word())
            || spells(w@, from as int, nan_word())),
{
    let n = w.len() - from;
    if n == 3 {
        let a = lower(w[from]);
        let b = lower(w[from + 1]);
        let c = lower(w[from + 2]);
        let is_inf = a == 105 && b == 110 && c == 102;
        let is_nan = a == 110 && b == 97 && c == 110;
        proof {
            assert(inf_word()[0] == 105 && inf_word()[1] == 110 && inf_word()[2] == 102);
            assert(nan_word()[0] == 110 && nan_word()[1] == 97 && nan_word()[2] == 110);
            assert(infinity_word().len() == 8);
            if spells(w@, from as int, inf_word()) {
                assert(lowered(w@[from + 0]) == inf_word()[0]);
                assert(lowered(w@[from + 1]) == inf_word()[1]);
                assert(lowered(w@[from + 2]) == inf_word()[2]);
            }
            if spells(w@, from as int, nan_word()) {
                assert(lowered(w@[from + 0]) == nan_word()[0]);
                assert(lowered(w@[from + 1]) == nan_word()[1]);
                assert(lowered(w@[from + 2]) == nan_word()[2]);
            }
        }
        is_inf || is_nan
    } else if n == 8 {
        let is_infinity = lower(w[from]) == 105 && lower(w[from + 1]) == 110 && lower(w[from + 2])
            == 102 && lower(w[from + 3]) == 105 && lower(w[from + 4]) == 110 && lower(w[from + 5])
            == 105 && lower(w[from + 6]) == 116 && lower(w[from + 7]) == 121;
        proof {
            let word = infinity_word();
            assert(word[0] == 105 && word[1] == 110 && word[2] == 102 && word[3] == 105 && word[4]
                == 110 && word[5] == 105 && word[6] == 116 && word[7] == 121);
            assert(inf_word().len() == 3 && nan_word().len() == 3);
            if spells(w@, from as int, word) {
                assert(lowered(w@[from + 0]) == word[0]);
                assert(lowered(w@[from + 1]) == word[1]);
                assert(lowered(w@[from + 2]) == word[2]);
                assert(lowered(w@[from + 3]) == word[3]);
                assert(lowered(w@[from + 4]) == word[4]);
                assert(lowered(w@[from + 5]) == word[5]);
                assert(lowered(w@[from + 6]) == word[6]);
                assert(lowered(w@[from + 7]) == word[7]);
            }
        }
        is_infinity
    } else {
        proof {
            assert(inf_word().len() == 3 && nan_word().len() == 3 && infinity_word().len() == 8);
        }
        false
    }
}

/// Whether `w[from..]` is an exponent.
fn is_exponent_from(w: &[u8], from: usize) -> (r: bool)
    requires
        from <= w.len(),
    ensures
        r == is_exponent(w@, from as int),
{
    if from >= w.len() || lower(w[from]) != 101 {
        return false;
    }
    let digits = if w.len() - from > 1 && (w[from + 1] == 43 || w[from + 1] == 45) {
        from + 2
    } else {
        from + 1
    };
    digits < w.len() && digits_end_from(w, digits) == w.len()
}

/// Whether the word writes a number, as `is_float` says.
pub fn word_is_float(w: &[u8]) -> (r: bool)
    ensures
        r == is_float(w@),
{
    let from: usize = if w.len() > 0 && (w[0] == 43 || w[0] == 45) {
        1
    } else {
        0
    };
    let whole_end = digits_end_from(w, from);
    let fraction_start = if whole_end < w.len() && w[whole_end] == 46 {
        whole_end + 1
    } else {
        whole_end
    };
    let fraction_end = digits_end_from(w, fraction_start);
    let digit_count = (whole_end - from) + (fraction_end - fraction_start);
    if digit_count > 0 && (fraction_end == w.len() || is_exponent_from(w, fraction_end)) {
        return true;
    }
    spells_special(w, from)
}

/// The first word of the line, where it writes a number.
pub fn first_number<'a>(bytes: &'a [u8]) -> (r: Option<&'a [u8]>)
    ensures
        match r {
            Some(w) => leading_number(bytes@) == Some(w@),
            None => leading_number(bytes@) is None,
        },
{
    let a = skip_blanks_from(bytes, 0);
    if is_line_end(bytes, a) {
        return None;
    }
    let b = word_end_from(bytes, a);
    let word = vstd::slice::slice_subrange(bytes, a, b);
    if word_is_float(word) {
        Some(word)
    } else {
        None
    }
}

/// Whether the next `k` words of the line from `i` on are there and write
/// numbers.
pub fn line_has_numbers(bytes: &[u8], i: usize, k: usize) -> (r: bool)
    requires
        i <= bytes.len(),
    ensures
        r == has_numbers(bytes@, i as int, k as nat),
{
    let mut j = i;
    let mut left = k;
    while left > 0
        invariant
            j <= bytes.len(),
            has_numbers(bytes@, i as int, k as nat) == has_numbers(bytes@, j as int, left as nat),
        decreases left,
    {
        let a = skip_blanks_from(bytes, j);
        if is_line_end(bytes, a) {
            return false;
        }
        let b = word_end_from(bytes, a);
        if !word_is_float(vstd::slice::slice_subrange(bytes, a, b)) {
            return false;
        }
        j = b;
        left = left - 1;
    }
    true
}

} // verus!
