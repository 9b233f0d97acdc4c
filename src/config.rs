use vstd::prelude::*;

use crate::text::{parse_digits, parse_digits_spec};

verus! {

/// Micro-units in one unit of the settlement asset.
pub const MICRO_PER_UNIT: u64 = 1_000_000;

/// Ten to the power `n`.
pub open spec fn pow10(n: nat) -> nat
    decreases n,
{
    if n == 0 {
        1
    } else {
        10 * pow10((n - 1) as nat)
    }
}

/// The micro-units that the decimal amount `s` names: whole units, then
/// optionally a `.` and one to six fractional digits; `None` for anything
/// else or for an amount past the largest `u64`.
pub open spec fn micro_amount_spec(s: Seq<char>) -> Option<u64> {
    match s.index_of_first('.') {
        None => match parse_digits_spec(s) {
            Some(w) => if w * MICRO_PER_UNIT <= u64::MAX {
                Some((w * MICRO_PER_UNIT) as u64)
            } else {
                None
            },
            None => None,
        },
        Some(d) => {
            let frac = s.subrange(d + 1, s.len() as int);
            if frac.len() == 0 || frac.len() > 6 {
                None
            } else {
                match (parse_digits_spec(s.subrange(0, d)), parse_digits_spec(frac)) {
                    (Some(w), Some(f)) => {
                        let v = w * MICRO_PER_UNIT + f * pow10((6 - frac.len()) as nat);
                        if v <= u64::MAX {
                            Some(v as u64)
                        } else {
                            None
                        }
                    },
                    _ => None,
                }
            }
        },
    }
}

fn first_dot(s: &str) -> (r: Option<usize>)
    ensures
        r matches Some(i) ==> s@.index_of_first('.') == Some(i as int),
        r is None ==> s@.index_of_first('.') is None,
        r matches Some(i) ==> i < s@.len(),
{
    let n = s.unicode_len();
    let mut i: usize = 0;
    while i < n
        invariant
            i <= n,
            n == s@.len(),
            forall|j: int| 0 <= j < i ==> s@[j] != '.',
        decreases n - i,
    {
        if s.get_char(i) == '.' {
            proof {
                s@.index_of_first_ensures('.');
                assert(s@.contains('.')) by {
                    assert(s@[i as int] == '.');
                }
                let k = s@.index_of_first('.')->Some_0;
                if k < i {
                    assert(s@[k] != '.');
                }
            }
            return Some(i);
        }
        i += 1;
    }
    proof {
        s@.index_of_first_ensures('.');
        if s@.contains('.') {
            let k = choose|k: int| 0 <= k < s@.len() && s@[k] == '.';
            assert(s@[k] != '.');
        }
    }
    None
}

/// Reads a decimal amount of the settlement asset (such as `0.001`) as
/// micro-units.
pub fn parse_micro_amount(s: &str) -> (r: Option<u64>)
    ensures
        r == micro_amount_spec(s@),
{
    let n = s.unicode_len();
    match first_dot(s) {
        None => match parse_digits(s) {
            Some(w) => if w <= u64::MAX / MICRO_PER_UNIT {
                Some(w * MICRO_PER_UNIT)
            } else {
                None
            },
            None => None,
        },
        Some(d) => {
            let whole = s.substring_char(0, d);
            let frac = s.substring_char(d + 1, n);
            let k = n - (d + 1);
            if k == 0 || k > 6 {
                return None;
            }
            match (parse_digits(whole), parse_digits(frac)) {
                (Some(w), Some(f)) => {
                    proof {
                        lemma_pow10_small();
                    }
                    let scale: u64 = if k == 1 {
                        100_000
                    } else if k == 2 {
                        10_000
                    } else if k == 3 {
                        1_000
                    } else if k == 4 {
                        100
                    } else if k == 5 {
                        10
                    } else {
                        1
                    };
                    assert(scale == pow10((6 - k) as nat));
                    assert(frac@.len() == k);
                    assert(f < 1_000_000) by {
                        lemma_small_digits(frac@);
                    }
                    let part = f * scale;
                    assert(part <= 999_999 * 100_000) by (nonlinear_arith)
                        requires f < 1_000_000, scale <= 100_000, part == f * scale;
                    if w > (u64::MAX - part) / MICRO_PER_UNIT {
                        assert(w * MICRO_PER_UNIT + part > u64::MAX) by (nonlinear_arith)
                            requires w > (u64::MAX - part) / 1_000_000, part <= u64::MAX;
                        None
                    } else {
                        assert(w * MICRO_PER_UNIT + part <= u64::MAX) by (nonlinear_arith)
                            requires w <= (u64::MAX - part) / 1_000_000, part <= u64::MAX;
                        Some(w * MICRO_PER_UNIT + part)
                    }
                },
                _ => None,
            }
        },
    }
}

proof fn lemma_digits_bound(s: Seq<char>)
    requires
        forall|i: int| 0 <= i < s.len() ==> crate::text::is_digit(#[trigger] s[i]),
    ensures
        crate::text::digits_value(s) < pow10(s.len()),
    decreases s.len(),
{
    if s.len() > 0 {
        let t = s.drop_last();
        assert forall|i: int| 0 <= i < t.len() implies crate::text::is_digit(#[trigger] t[i]) by {
            assert(t[i] == s[i]);
        }
        lemma_digits_bound(t);
        let v = crate::text::digits_value(t);
        let p = pow10(t.len());
        let d = (s.last() as u32 - 48) as nat;
        assert(d < 10);
        assert(v * 10 + d < p * 10) by (nonlinear_arith)
            requires v < p, d < 10;
    }
}

proof fn lemma_pow10_small()
    ensures
        pow10(0) == 1,
        pow10(1) == 10,
        pow10(2) == 100,
        pow10(3) == 1000,
        pow10(4) == 10000,
        pow10(5) == 100000,
        pow10(6) == 1000000,
{
    assert(pow10(0) == 1);
    assert(pow10(1) == 10);
    assert(pow10(2) == 100);
    assert(pow10(3) == 1000);
    assert(pow10(4) == 10000);
    assert(pow10(5) == 100000);
    assert(pow10(6) == 1000000);
}

proof fn lemma_small_digits(s: Seq<char>)
    requires
        1 <= s.len() <= 6,
        parse_digits_spec(s) is Some,
    ensures
        parse_digits_spec(s)->Some_0 < 1_000_000,
{
    lemma_digits_bound(s);
    lemma_pow10_small();
}

/// The text is `0x` and forty hexadecimal digits, of either case.
pub open spec fn is_evm_address(s: Seq<char>) -> bool {
    &&& s.len() == 42
    &&& s[0] == '0'
    &&& s[1] == 'x'
    &&& forall|i: int| 2 <= i < 42 ==> is_hex_char(#[trigger] s[i])
}

/// The character is a hexadecimal digit of either case.
pub open spec fn is_hex_char(c: char) -> bool {
    ('0' <= c && c <= '9') || ('a' <= c && c <= 'f') || ('A' <= c && c <= 'F')
}

/// Whether `s` is an EVM address: `0x` and forty hexadecimal digits.
pub fn is_valid_evm_address(s: &str) -> (r: bool)
    ensures
        r == is_evm_address(s@),
{
    let n = s.unicode_len();
    if n != 42 || s.get_char(0) != '0' || s.get_char(1) != 'x' {
        return false;
    }
    let mut i: usize = 2;
    while i < 42
        invariant
            2 <= i <= 42,
            n == s@.len(),
            n == 42,
            forall|j: int| 2 <= j < i ==> is_hex_char(#[trigger] s@[j]),
        decreases 42 - i,
    {
        let c = s.get_char(i);
        if !(('0' <= c && c <= '9') || ('a' <= c && c <= 'f') || ('A' <= c && c <= 'F')) {
            assert(!is_hex_char(s@[i as int]));
            return false;
        }
        i += 1;
    }
    true
}

/// Why the gateway's settings are refused.
#[derive(Debug, PartialEq, Eq)]
pub enum ConfigError {
    MissingEnvVar(String),
    FileRead(String),
    Parse(String),
    Invalid(String),
}

/// The gateway's settings, with the price in micro-units.
pub struct Config {
    pub node_url: String,
    pub price_per_request: u64,
    pub port: u16,
    pub facilitator_url: String,
    pub payment_address: String,
}

impl Config {
    /// Checks and assembles the settings: the payment address must be an
    /// EVM address, the node URL must not be empty, and the price must be a
    /// decimal amount of the settlement asset.
    pub fn from_settings(
        node_url: &str,
        price_per_request: &str,
        port: u16,
        facilitator_url: &str,
        payment_address: &str,
    ) -> (r: Result<Config, ConfigError>)
        ensures
            !is_evm_address(payment_address@) ==> r matches Err(ConfigError::Invalid(_)),
            is_evm_address(payment_address@) && node_url@.len() == 0 ==> r matches Err(
                ConfigError::Invalid(_),
            ),
            is_evm_address(payment_address@) && node_url@.len() > 0 && micro_amount_spec(
                price_per_request@,
            ) is None ==> r matches Err(ConfigError::Invalid(_)),
            is_evm_address(payment_address@) && node_url@.len() > 0 && micro_amount_spec(
                price_per_request@,
            ) is Some ==> (r matches Ok(c) && c.node_url@ == node_url@ && c.price_per_request
                == micro_amount_spec(price_per_request@)->Some_0 && c.port == port
                && c.facilitator_url@ == facilitator_url@ && c.payment_address@
                == payment_address@),
    {
        if !is_valid_evm_address(payment_address) {
            return Err(
                ConfigError::Invalid(
                    "PAYMENT_ADDRESS must be a valid EVM address (0x followed by 40 hex digits)".to_string(),
                ),
            );
        }
        if node_url.is_empty() {
            return Err(ConfigError::Invalid("node_url cannot be empty".to_string()));
        }
        let price = match parse_micro_amount(price_per_request) {
            Some(p) => p,
            None => {
                return Err(
                    ConfigError::Invalid(
                        "price_per_request must be a non-negative decimal with at most 6 decimals".to_string(),
                    ),
                );
            },
        };
        Ok(
            Config {
                node_url: node_url.to_string(),
                price_per_request: price,
                port,
                facilitator_url: facilitator_url.to_string(),
                payment_address: payment_address.to_string(),
            },
        )
    }
}

} // verus!
