//! Caller authorization and the parsing of amounts.

use crate::account_id::AccountId;
use crate::contract::Env;
use crate::error::Error;
use crate::model::{is_first_dot, NANOS_PER_SECOND, ONE_TOKEN};
use vstd::prelude::*;
use vstd::string::*;

verus! {

broadcast use vstd::string::is_ascii_spec_bytes;

/// Converts a duration in nanoseconds to whole seconds, rounding down.
pub fn nano_to_sec(nano: u64) -> (seconds: u128)
    ensures
        seconds == nano / NANOS_PER_SECOND,
{
    (nano / NANOS_PER_SECOND) as u128
}

/// The parent account of the contract, if it is the caller.
///
/// The parent of the account `ft.game.near` is `game.near`: what follows the
/// first `.`. Privileged operations are open to the parent alone; a call by
/// anyone else, or under an account without a parent, is `Unauthorized`.
pub fn assert_parent_contract(env: &Env) -> (r: Result<AccountId, Error>)
    ensures
        match env@.assert_parent_contract() {
            Ok(parent) => r is Ok && r->Ok_0@ == parent,
            Err(e) => r is Err && r->Err_0 == e,
        },
{
    let current = env.current_account_id.as_str();
    let len = current.len();
    assert(current.is_ascii());
    let mut i: usize = 0;
    while i < len && current.get_ascii(i) != 0x2e
        invariant
            i <= len,
            len == current@.len(),
            current.is_ascii(),
            forall|j: int| 0 <= j < i ==> current@[j] != '.',
        decreases len - i,
    {
        i = i + 1;
    }
    if i == len {
        return Err(Error::Unauthorized);
    }
    assert(is_first_dot(current@, i as int));
    let suffix = current.substring_ascii(i + 1, len);
    match AccountId::parse(suffix) {
        None => {
            proof {
                // The caller's name is valid, so it is not this one.
                use_type_invariant(&env.predecessor_account_id);
            }
            Err(Error::Unauthorized)
        },
        Some(parent) => if parent == env.predecessor_account_id {
            Ok(parent)
        } else {
            Err(Error::Unauthorized)
        },
    }
}

/// Whether two texts are the same.
pub fn same_text(a: &str, b: &str) -> (same: bool)
    ensures
        same == (a@ == b@),
{
    broadcast use vstd::utf8::encode_utf8_decode_utf8;

    let x = a.as_bytes();
    let y = b.as_bytes();
    // A text is what its encoding decodes to, so two texts are the same
    // exactly when their encodings are.
    assert(a@ == vstd::utf8::decode_utf8(a.spec_bytes()));
    assert(b@ == vstd::utf8::decode_utf8(b.spec_bytes()));
    if x.len() != y.len() {
        return false;
    }
    let mut i: usize = 0;
    while i < x.len()
        invariant
            i <= x@.len(),
            x@ == a.spec_bytes(),
            y@ == b.spec_bytes(),
            x@.len() == y@.len(),
            forall|j: int| 0 <= j < i ==> x@[j] == y@[j],
        decreases x@.len() - i,
    {
        if x[i] != y[i] {
            return false;
        }
        i = i + 1;
    }
    assert(x@ =~= y@);
    true
}

/// The digits `0` to `9`, as bytes.
pub open spec fn is_digit(b: u8) -> bool {
    0x30 <= b <= 0x39
}

/// The number that a run of digits stands for, in base ten.
pub open spec fn digits_value(digits: Seq<u8>) -> nat
    decreases digits.len(),
{
    if digits.len() == 0 {
        0
    } else {
        digits_value(digits.drop_last()) * 10 + (digits.last() - 0x30) as nat
    }
}

/// Every byte is a digit.
pub open spec fn all_digits(digits: Seq<u8>) -> bool {
    forall|i: int| 0 <= i < digits.len() ==> is_digit(#[trigger] digits[i])
}

/// `text` without the `+` that it may begin with.
pub open spec fn unsigned(text: Seq<u8>) -> Seq<u8> {
    if text.len() > 0 && text[0] == 0x2b {
        text.drop_first()
    } else {
        text
    }
}

/// The number that `text` stands for: one or more digits, with or without a
/// `+` before them. Anything else stands for no number.
pub open spec fn parse_number(text: Seq<u8>) -> Option<nat> {
    let digits = unsigned(text);
    if digits.len() > 0 && all_digits(digits) {
        Some(digits_value(digits))
    } else {
        None
    }
}

/// The place of the first `.` in `text` at or after `from`; the length of
/// `text` if there is none.
pub open spec fn dot_from(text: Seq<u8>, from: int) -> int
    decreases text.len() - from,
{
    if from >= text.len() {
        text.len() as int
    } else if text[from] == 0x2e {
        from
    } else {
        dot_from(text, from + 1)
    }
}

/// Ten to the power of `n`.
pub open spec fn pow10(n: nat) -> nat
    decreases n,
{
    if n == 0 {
        1
    } else {
        10 * pow10((n - 1) as nat)
    }
}

/// The amount that a decimal number of whole tokens stands for, in the
/// smallest unit, of which a token has 10^24.
///
/// `text` is a whole part, or a whole part, a `.` and a fraction of up to 24
/// characters. A second `.` ends the fraction, and what follows it is not
/// read.
pub open spec fn yocto(text: Seq<u8>) -> Option<nat> {
    let end = dot_from(text, 0);
    match parse_number(text.subrange(0, end)) {
        None => None,
        Some(whole) => if end == text.len() {
            Some(whole * pow10(24))
        } else {
            let fraction = text.subrange(end + 1, dot_from(text, end + 1));
            match parse_number(fraction) {
                None => None,
                Some(part) => if fraction.len() > 24 {
                    None
                } else {
                    Some(whole * pow10(24) + part * pow10((24 - fraction.len()) as nat))
                },
            }
        },
    }
}

/// A run of digits stands for no less than any run that it begins with.
proof fn lemma_digits_value_grows(digits: Seq<u8>, k: int)
    requires
        0 <= k <= digits.len(),
    ensures
        digits_value(digits.subrange(0, k)) <= digits_value(digits),
    decreases digits.len(),
{
    if k == digits.len() {
        assert(digits.subrange(0, k) =~= digits);
    } else {
        assert(digits.drop_last().subrange(0, k) =~= digits.subrange(0, k));
        lemma_digits_value_grows(digits.drop_last(), k);
    }
}

/// No power of ten is zero.
proof fn lemma_pow10_positive(n: nat)
    ensures
        pow10(n) >= 1,
    decreases n,
{
    if n > 0 {
        lemma_pow10_positive((n - 1) as nat);
    }
}

/// The place of the first `.` at or after `from`, or `bytes.len()`.
fn find_dot(bytes: &[u8], from: usize) -> (end: usize)
    requires
        from <= bytes@.len(),
    ensures
        end == dot_from(bytes@, from as int),
        from <= end <= bytes@.len(),
{
    let mut i: usize = from;
    while i < bytes.len() && bytes[i] != 0x2e
        invariant
            from <= i <= bytes@.len(),
            dot_from(bytes@, from as int) == dot_from(bytes@, i as int),
        decreases bytes@.len() - i,
    {
        i = i + 1;
    }
    i
}

/// Reads `bytes[from..to]` as a number that fits in 128 bits.
fn parse_u128(bytes: &[u8], from: usize, to: usize) -> (r: Option<u128>)
    requires
        from <= to <= bytes@.len(),
    ensures
        r == match parse_number(bytes@.subrange(from as int, to as int)) {
            Some(n) => if n <= u128::MAX {
                Some(n as u128)
            } else {
                None
            },
            None => None,
        },
{
    let ghost text = bytes@.subrange(from as int, to as int);
    let start: usize = if from < to && bytes[from] == 0x2b {
        from + 1
    } else {
        from
    };
    let ghost digits = bytes@.subrange(start as int, to as int);
    if start == to {
        return None;
    }
    let mut value: u128 = 0;
    let mut i: usize = start;
    while i < to
        invariant
            from <= start <= i <= to <= bytes@.len(),
            text == bytes@.subrange(from as int, to as int),
            digits == bytes@.subrange(start as int, to as int),
            digits == unsigned(text),
            forall|j: int| 0 <= j < i - start ==> is_digit(#[trigger] digits[j]),
            value == digits_value(digits.subrange(0, i - start)),
        decreases to - i,
    {
        let b = bytes[i];
        assert(b == digits[i - start]);
        if b < 0x30 || b > 0x39 {
            return None;
        }
        assert(digits.subrange(0, i - start + 1).drop_last() =~= digits.subrange(0, i - start));
        proof {
            if all_digits(digits) {
                lemma_digits_value_grows(digits, i - start + 1);
            }
        }
        let shifted = match value.checked_mul(10) {
            Some(v) => v,
            None => {
                return None;
            },
        };
        value = match shifted.checked_add((b - 0x30) as u128) {
            Some(v) => v,
            None => {
                return None;
            },
        };
        i = i + 1;
    }
    assert(digits.subrange(0, to - start) =~= digits);
    Some(value)
}

/// Ten to the power of `n`, for an `n` up to 24.
fn power_of_ten(n: usize) -> (p: u128)
    requires
        n <= 24,
    ensures
        p == pow10(n as nat),
{
    let mut p: u128 = 1;
    let mut i: usize = 0;
    while i < n
        invariant
            i <= n <= 24,
            p == pow10(i as nat),
            p <= ONE_TOKEN,
        decreases n - i,
    {
        proof {
            lemma_pow10_24_bound(i as nat);
        }
        p = p * 10;
        i = i + 1;
    }
    p
}

/// The powers of ten up to the 24th are at most 10^24, which is one token.
proof fn lemma_pow10_24_bound(n: nat)
    ensures
        n < 24 ==> 10 * pow10(n) <= ONE_TOKEN,
        pow10(24) == ONE_TOKEN,
{
    reveal_with_fuel(pow10, 25);
}

/// Converts a decimal number of whole tokens, such as `0.1`, to an amount in
/// the smallest unit.
///
/// Returns `None` where `value` is no such number (see [`yocto`]) or the
/// amount does not fit in 128 bits.
pub fn convert_to_yocto(value: &str) -> (r: Option<u128>)
    ensures
        r == match yocto(value.spec_bytes()) {
            Some(n) => if n <= u128::MAX {
                Some(n as u128)
            } else {
                None
            },
            None => None,
        },
{
    let bytes = value.as_bytes();
    let end = find_dot(bytes, 0);
    let whole = match parse_u128(bytes, 0, end) {
        Some(v) => v,
        None => {
            proof {
                lemma_pow10_24_bound(0);
                lemma_yocto_bounds(bytes@);
            }
            return None;
        },
    };
    proof {
        lemma_pow10_24_bound(0);
        lemma_yocto_bounds(bytes@);
    }
    let whole_amount = match whole.checked_mul(ONE_TOKEN) {
        Some(v) => v,
        None => {
            return None;
        },
    };
    if end == bytes.len() {
        return Some(whole_amount);
    }
    let fraction_end = find_dot(bytes, end + 1);
    let part = match parse_u128(bytes, end + 1, fraction_end) {
        Some(v) => v,
        None => {
            return None;
        },
    };
    let fraction_len = fraction_end - (end + 1);
    if fraction_len > 24 {
        return None;
    }
    let scale = power_of_ten(24 - fraction_len);
    let part_amount = match part.checked_mul(scale) {
        Some(v) => v,
        None => {
            return None;
        },
    };
    whole_amount.checked_add(part_amount)
}

/// An amount is no less than its whole part, and no less than its fraction.
proof fn lemma_yocto_bounds(text: Seq<u8>)
    ensures
        yocto(text) is Some ==> {
            let end = dot_from(text, 0);
            let whole = parse_number(text.subrange(0, end))->0;
            &&& whole <= whole * pow10(24) <= yocto(text)->0
            &&& end < text.len() ==> {
                let fraction = text.subrange(end + 1, dot_from(text, end + 1));
                let part = parse_number(fraction)->0;
                let scale = pow10((24 - fraction.len()) as nat);
                part <= part * scale <= yocto(text)->0
            }
        },
{
    if yocto(text) is Some {
        let end = dot_from(text, 0);
        let whole = parse_number(text.subrange(0, end))->0;
        lemma_pow10_positive(24);
        assert(whole <= whole * pow10(24)) by (nonlinear_arith)
            requires
                pow10(24) >= 1,
        ;
        if end < text.len() {
            let fraction = text.subrange(end + 1, dot_from(text, end + 1));
            let part = parse_number(fraction)->0;
            let scale = pow10((24 - fraction.len()) as nat);
            lemma_pow10_positive((24 - fraction.len()) as nat);
            assert(part <= part * scale) by (nonlinear_arith)
                requires
                    scale >= 1,
            ;
        }
    }
}

} // verus!
