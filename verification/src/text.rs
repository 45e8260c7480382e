//! Text helpers: decimal rendering of numbers and the debug rendering of
//! errors, as std's formatting produces them.
use crate::errors::CsError;
use vstd::prelude::*;

verus! {

/// The character of decimal digit `d`.
pub open spec fn digit_char(d: nat) -> char
    recommends
        d < 10,
{
    (48 + d) as char
}

/// The decimal rendering of `n`, without sign or leading zeros.
pub open spec fn decimal_text(n: nat) -> Seq<char>
    decreases n,
{
    if n < 10 {
        seq![digit_char(n)]
    } else {
        decimal_text(n / 10).push(digit_char(n % 10))
    }
}

/// The only number rendered as a single `0` is zero.
pub proof fn lemma_decimal_text_zero(n: nat)
    ensures
        (decimal_text(n) == seq!['0']) <==> n == 0,
{
    if n >= 10 {
        assert(decimal_text(n).len() == decimal_text(n / 10).len() + 1);
        assert(decimal_text(n / 10).len() >= 1) by {
            reveal_with_fuel(decimal_text, 2);
        }
    } else if n != 0 {
        assert(decimal_text(n)[0] != '0');
    }
}

/// `u32::to_string`: the decimal rendering of `n`.
#[verifier::external_body]
pub(crate) fn u32_text(n: u32) -> (s: String)
    ensures
        s@ == decimal_text(n as nat),
{
    n.to_string()
}

/// What `format!("{:?}", e)` renders for an error.
pub uninterp spec fn cs_error_debug(e: CsError) -> Seq<char>;

/// `format!("{:?}", e)`: the derived debug rendering of the error.
#[verifier::external_body]
pub(crate) fn cs_error_debug_text(e: &CsError) -> (s: String)
    ensures
        s@ == cs_error_debug(*e),
{
    format!("{:?}", e)
}

} // verus!
