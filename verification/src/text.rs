use crate::pointer::{all_digits, decimal};
use vstd::prelude::*;

verus! {

/// The amount that a string spells: decimal digits, with or without a `+` in
/// front, whose number fits 128 bits.
pub open spec fn amount_of(s: Seq<char>) -> Option<u128> {
    let digits = if s.len() > 0 && s[0] == '+' {
        s.skip(1)
    } else {
        s
    };
    if digits.len() > 0 && all_digits(digits) && decimal(digits) <= u128::MAX {
        Some(decimal(digits) as u128)
    } else {
        None
    }
}

/// The character that stands for the digit `d`.
pub open spec fn digit_char(d: nat) -> char
    recommends
        d < 10,
{
    (d + '0' as nat) as char
}

/// The decimal digits of `n`, most significant first, without leading zeros.
pub open spec fn decimal_text(n: nat) -> Seq<char>
    decreases n,
{
    if n < 10 {
        seq![digit_char(n)]
    } else {
        decimal_text(n / 10).push(digit_char(n % 10))
    }
}

/// The message with which an amount that cannot be read is refused.
pub uninterp spec fn amount_refusal(s: Seq<char>) -> Seq<char>;

/// The text that stands for `bytes` in base64.
pub uninterp spec fn base64_text(bytes: Seq<u8>) -> Seq<char>;

/// `Uint128::from_str` of cosmwasm_std: the string is read as a base ten
/// number of at most 128 bits, as `u128`'s own parser reads it. A string that
/// is no such number is refused with a message that depends on the string
/// alone.
#[verifier::external_body]
pub(crate) fn amount_from_str(s: &str) -> (r: Result<u128, String>)
    ensures
        match r {
            Ok(amount) => amount_of(s@) == Some(amount),
            Err(msg) => amount_of(s@) is None && msg@ == amount_refusal(s@),
        },
{
    match <cosmwasm_std::Uint128 as std::str::FromStr>::from_str(s) {
        Ok(amount) => Ok(amount.u128()),
        Err(cosmwasm_std::StdError::GenericErr { msg, .. }) => Err(msg),
        Err(other) => Err(other.to_string()),
    }
}

/// `Uint128`'s `to_string` of cosmwasm_std: the amount in decimal digits, as
/// `u128` prints itself.
#[verifier::external_body]
pub(crate) fn amount_to_string(amount: u128) -> (s: String)
    ensures
        s@ == decimal_text(amount as nat),
{
    cosmwasm_std::Uint128::new(amount).to_string()
}

/// `Binary::to_base64` of cosmwasm_std: the bytes in standard base64 with
/// padding.
#[verifier::external_body]
pub(crate) fn to_base64(bytes: &Vec<u8>) -> (s: String)
    ensures
        s@ == base64_text(bytes@),
{
    cosmwasm_std::Binary(bytes.clone()).to_base64()
}

/// Whether two strings hold the same characters.
pub fn same_text(a: &str, b: &str) -> (same: bool)
    ensures
        same == (a@ == b@),
{
    let n = a.unicode_len();
    if n != b.unicode_len() {
        return false;
    }
    let mut i: usize = 0;
    while i < n
        invariant
            n == a@.len(),
            n == b@.len(),
            i <= n,
            forall|j: int| 0 <= j < i ==> a@[j] == b@[j],
        decreases n - i,
    {
        if a.get_char(i) != b.get_char(i) {
            return false;
        }
        i += 1;
    }
    assert(a@ =~= b@);
    true
}

} // verus!
