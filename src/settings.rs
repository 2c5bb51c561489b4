use vstd::prelude::*;

use crate::types::{RiskError, RiskLimits};

verus! {

pub open spec fn is_hex_digit(c: char) -> bool {
    ('0' <= c && c <= '9') || ('a' <= c && c <= 'f') || ('A' <= c && c <= 'F')
}

/// The digits of an address after an optional `0x` prefix.
pub open spec fn address_digits(s: Seq<char>) -> Seq<char> {
    if s.len() >= 2 && s[0] == '0' && s[1] == 'x' {
        s.skip(2)
    } else {
        s
    }
}

/// A wallet address: an optional `0x`, then forty hexadecimal digits of
/// either case.
pub open spec fn is_wallet_address(s: Seq<char>) -> bool {
    let d = address_digits(s);
    d.len() == 40 && forall|i: int| 0 <= i < d.len() ==> is_hex_digit(#[trigger] d[i])
}

/// Executable form of [`is_wallet_address`].
pub fn check_wallet_address(s: &str) -> (r: bool)
    ensures
        r == is_wallet_address(s@),
{
    let n = s.unicode_len();
    let start: usize = if n >= 2 && s.get_char(0) == '0' && s.get_char(1) == 'x' {
        2
    } else {
        0
    };
    let ghost d = address_digits(s@);
    assert(d =~= s@.skip(start as int));
    if n - start != 40 {
        return false;
    }
    let mut i: usize = start;
    while i < n
        invariant
            start <= i <= n,
            n == s@.len(),
            d == s@.skip(start as int),
            d == address_digits(s@),
            forall|k: int| 0 <= k < i - start ==> is_hex_digit(#[trigger] d[k]),
        decreases n - i,
    {
        let c = s.get_char(i);
        assert(d[i - start] == c);
        if !(('0' <= c && c <= '9') || ('a' <= c && c <= 'f') || ('A' <= c && c <= 'F')) {
            assert(!is_hex_digit(d[i - start]));
            return false;
        }
        i = i + 1;
    }
    true
}

/// Settings editable from the dashboard: the account's wallet address and
/// the risk limits.
#[derive(Clone, Debug)]
pub struct UserSettings {
    pub wallet_address: String,
    pub risk_limits: RiskLimits,
}

impl UserSettings {
    /// Accepts the settings when the address is well formed and the limits
    /// are valid; otherwise `InvalidConfiguration`.
    pub fn validate(&self) -> (r: Result<(), RiskError>)
        ensures
            r is Ok <==> (is_wallet_address(self.wallet_address@) && self.risk_limits.is_valid()),
            r is Err ==> r == Err::<(), RiskError>(RiskError::InvalidConfiguration),
    {
        if check_wallet_address(self.wallet_address.as_str()) && self.risk_limits.check() {
            Ok(())
        } else {
            Err(RiskError::InvalidConfiguration)
        }
    }
}

} // verus!
