//! The two-operand arithmetic challenge: two operands drawn uniformly from
//! one to nine, answered by the exact decimal sum in message text.

use crate::chars::all_digits;
use crate::chars::chars_of;
use crate::chars::dec_chars_u64;
use crate::chars::is_digit;
use crate::chars::spec_dec;
use crate::chars::str_eq;
use crate::chars::string_of;
use crate::chars::trim_chars;
use crate::chars::trim_spec;
use crate::config::CaptchaMode;
use vstd::prelude::*;
use vstd::string::*;

verus! {

/// The arithmetic verification strategy.
pub struct Math2Captcha;

/// One uniformly drawn operand.
pub fn random_operand() -> (r: u32)
    ensures
        1 <= r <= 9,
{
    1 + crate::captcha::random_below_u32(9)
}

/// The prompt text for operands `a` and `b`.
pub open spec fn spec_math2_prompt(
    mention: Seq<char>,
    a: nat,
    b: nat,
    timeout_secs: nat,
) -> Seq<char> {
    mention + ", докажите, что вы человек: сколько будет "@ + spec_dec(a) + " + "@ + spec_dec(b)
        + "? Напишите только число за "@ + spec_dec(timeout_secs) + " секунд."@
}

/// Is `candidate` a valid answer against `expected`: trimmed, it must
/// consist solely of decimal digits and equal `expected` exactly as a
/// string, with no numeric coercion.
pub open spec fn spec_numeric_equal(candidate: Seq<char>, expected: Seq<char>) -> bool {
    &&& all_digits(trim_spec(candidate))
    &&& trim_spec(candidate) == expected
}

/// Compares a candidate answer to the expected decimal string: the
/// candidate is trimmed, must be all digits, and must match exactly
/// (so `07` is not `7`).
pub fn is_numeric_equal(candidate: &str, expected: &str) -> (r: bool)
    ensures
        r == spec_numeric_equal(candidate@, expected@),
{
    let cs = chars_of(candidate);
    let t = trim_chars(&cs);
    let mut i: usize = 0;
    while i < t.len()
        invariant
            i <= t@.len(),
            t@ == trim_spec(candidate@),
            forall|j: int| 0 <= j < i ==> crate::chars::spec_is_digit(#[trigger] t@[j]),
        decreases t.len() - i,
    {
        if !is_digit(t[i]) {
            proof {
                assert(!crate::chars::spec_is_digit(trim_spec(candidate@)[i as int]));
                assert(!all_digits(trim_spec(candidate@)));
            }
            return false;
        }
        i = i + 1;
    }
    proof {
        assert(all_digits(trim_spec(candidate@)));
    }
    let ts = string_of(&t);
    str_eq(ts.as_str(), expected)
}

impl Math2Captcha {
    /// The mode this strategy serves.
    pub fn mode(&self) -> (r: CaptchaMode)
        ensures
            r == CaptchaMode::Math2,
    {
        CaptchaMode::Math2
    }

    /// Draws the operands and builds the prompt and the expected answer:
    /// for some operands between one and nine, the prompt names them and
    /// the expected answer is the decimal string of their sum.
    pub fn make_challenge(mention: &str, timeout_secs: u64) -> (r: (String, String))
        ensures
            exists|a: nat, b: nat|
                1 <= a <= 9 && 1 <= b <= 9 && r.0@ == spec_math2_prompt(
                    mention@,
                    a,
                    b,
                    timeout_secs as nat,
                ) && r.1@ == spec_dec((a + b) as nat),
    {
        let a: u32 = random_operand();
        let b: u32 = random_operand();
        let sum: u32 = a + b;
        let mut s = String::from_str(mention);
        s.append(", докажите, что вы человек: сколько будет ");
        let da = dec_chars_u64(a as u64);
        let das = string_of(&da);
        s.append(das.as_str());
        s.append(" + ");
        let db = dec_chars_u64(b as u64);
        let dbs = string_of(&db);
        s.append(dbs.as_str());
        s.append("? Напишите только число за ");
        let dt = dec_chars_u64(timeout_secs);
        let dts = string_of(&dt);
        s.append(dts.as_str());
        s.append(" секунд.");
        let ds = dec_chars_u64(sum as u64);
        let expected = string_of(&ds);
        proof {
            assert(1 <= a as nat <= 9 && 1 <= b as nat <= 9 && s@ == spec_math2_prompt(
                mention@,
                a as nat,
                b as nat,
                timeout_secs as nat,
            ) && expected@ == spec_dec((a as nat + b as nat) as nat));
        }
        (s, expected)
    }

    /// Validates an answer given in message text.
    pub fn on_text(&self, text: &str, expected: &str) -> (r: bool)
        ensures
            r == spec_numeric_equal(text@, expected@),
    {
        is_numeric_equal(text, expected)
    }
}

} // verus!
