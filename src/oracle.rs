use vstd::prelude::*;
use vstd::arithmetic::power::pow;
use crate::constants::{PAYOUT_PRICE_SLIPPAGE_BPS, PRICE_FEED_RECORD_LEN};
use crate::errors::TwentyOneError;
use crate::pubkey::Pubkey;
use borsh::BorshDeserialize;

verus! {

/// Unsigned little-endian value of the bytes.
pub open spec fn le_nat(b: Seq<u8>) -> nat
    decreases b.len(),
{
    if b.len() == 0 {
        0
    } else {
        b[0] as nat + 256 * le_nat(b.drop_first())
    }
}

/// Two's-complement little-endian value of eight bytes.
pub open spec fn le_i64(b: Seq<u8>) -> int {
    let v = le_nat(b);
    if v >= 0x8000_0000_0000_0000 {
        v - 0x1_0000_0000_0000_0000
    } else {
        v as int
    }
}

/// Two's-complement little-endian value of four bytes.
pub open spec fn le_i32(b: Seq<u8>) -> int {
    let v = le_nat(b);
    if v >= 0x8000_0000 {
        v - 0x1_0000_0000
    } else {
        v as int
    }
}

/// Price and exponent of an oracle price-feed record, if `data` is one: a
/// 32-byte identifier, then the current price (price i64, confidence u64,
/// exponent i32, publish time i64) and the moving-average price laid out the
/// same way, all little-endian.
pub open spec fn price_feed_fields(data: Seq<u8>) -> Option<(i64, i32)> {
    if data.len() == PRICE_FEED_RECORD_LEN {
        Some((le_i64(data.subrange(32, 40)) as i64, le_i32(data.subrange(48, 52)) as i32))
    } else {
        None
    }
}

/// Relies on pyth_sdk's `PriceFeed`, decoded by borsh's
/// `BorshDeserialize::try_from_slice` (which accepts exactly the bytes of one
/// record), and on `PriceFeed::get_price_unchecked`, which returns the current
/// price: its price and exponent are handed back.
#[verifier::external_body]
fn read_price_feed(data: &[u8]) -> (r: Option<(i64, i32)>)
    ensures
        r == price_feed_fields(data@),
{
    match pyth_sdk::PriceFeed::try_from_slice(data) {
        Ok(feed) => {
            let price = feed.get_price_unchecked();
            Some((price.price, price.expo))
        },
        Err(_) => None,
    }
}

/// Identity of the oracle program that owns genuine price-feed accounts.
pub open spec fn spec_oracle_program_id() -> Pubkey {
    Pubkey {
        bytes: [
            10, 26, 152, 51, 163, 118, 85, 43, 86, 183, 202, 13, 237, 25, 41, 23, 0, 87, 196, 184,
            232, 239, 64, 162, 239, 21, 245, 54, 181, 225, 80, 130,
        ],
    }
}

pub fn oracle_program_id() -> (r: Pubkey)
    ensures
        r == spec_oracle_program_id(),
{
    Pubkey {
        bytes: [
            10, 26, 152, 51, 163, 118, 85, 43, 86, 183, 202, 13, 237, 25, 41, 23, 0, 87, 196, 184,
            232, 239, 64, 162, 239, 21, 245, 54, 181, 225, 80, 130,
        ],
    }
}

/// An oracle account as handed in by the caller: its owning program and its data.
#[derive(Debug)]
pub struct PriceAccount {
    pub owner: Pubkey,
    pub data: Vec<u8>,
}

/// Result of reading a price from an account: the owner must be the oracle
/// program, and the data a price-feed record.
pub open spec fn spec_read_price(account: PriceAccount) -> Result<(i64, i32), TwentyOneError> {
    if account.owner != spec_oracle_program_id() {
        Err(TwentyOneError::InvalidPriceFeedOwner)
    } else {
        match price_feed_fields(account.data@) {
            Some(p) => Ok(p),
            None => Err(TwentyOneError::PriceFeedStale),
        }
    }
}

/// Reads price and exponent from an oracle account, checking its owner first.
pub fn read_oracle_price(account: &PriceAccount) -> (r: Result<(i64, i32), TwentyOneError>)
    ensures
        r == spec_read_price(*account),
{
    if account.owner != oracle_program_id() {
        return Err(TwentyOneError::InvalidPriceFeedOwner);
    }
    match read_price_feed(account.data.as_slice()) {
        Some(p) => Ok(p),
        None => Err(TwentyOneError::PriceFeedStale),
    }
}

/// A price widened to 128 bits as two's complement does it.
pub open spec fn price_as_u128(price: i64) -> int {
    if price >= 0 {
        price as int
    } else {
        price as int + 0x1_0000_0000_0000_0000_0000_0000_0000_0000
    }
}

pub open spec fn abs_expo(expo: i32) -> nat {
    if expo < 0 {
        (-expo) as nat
    } else {
        expo as nat
    }
}

/// Value of `amount` token units at `price * 10^-|expo|`, rounded down; an
/// error when the product or the power of ten leaves 128 bits.
pub open spec fn spec_value_usd(amount: u64, price: i64, expo: i32) -> Result<u128, TwentyOneError> {
    let product = amount as int * price_as_u128(price);
    let scale = pow(10, abs_expo(expo));
    if product > u128::MAX || scale > u128::MAX {
        Err(TwentyOneError::ArithmeticOverflow)
    } else {
        Ok((product / scale) as u128)
    }
}

/// `10^e`, or `None` past 128 bits.
fn pow10(e: u32) -> (r: Option<u128>)
    ensures
        match r {
            Some(v) => v as int == pow(10, e as nat),
            None => pow(10, e as nat) > u128::MAX,
        },
{
    let mut acc: u128 = 1;
    let mut k: u32 = 0;
    proof {
        vstd::arithmetic::power::lemma_pow0(10);
    }
    while k < e
        invariant
            k <= e,
            acc as int == pow(10, k as nat),
        decreases e - k,
    {
        proof {
            vstd::arithmetic::power::lemma_pow_adds(10, k as nat, 1);
            vstd::arithmetic::power::lemma_pow1(10);
        }
        match acc.checked_mul(10) {
            Some(v) => {
                acc = v;
            },
            None => {
                proof {
                    assert(pow(10, (k + 1) as nat) > u128::MAX);
                    vstd::arithmetic::power::lemma_pow_increases(10, (k + 1) as nat, e as nat);
                }
                return None;
            },
        }
        k = k + 1;
    }
    Some(acc)
}

/// Value in the quote currency of `amount` units priced at `price * 10^-|expo|`.
pub fn value_usd(amount: u64, price: i64, expo: i32) -> (r: Result<u128, TwentyOneError>)
    ensures
        r == spec_value_usd(amount, price, expo),
{
    let widened: u128 = if price >= 0 {
        price as u128
    } else {
        u128::MAX - ((-1 - price) as u64) as u128
    };
    let e: u32 = if expo < 0 {
        (-(expo as i64)) as u32
    } else {
        expo as u32
    };
    assert(widened as int == price_as_u128(price));
    assert(e as nat == abs_expo(expo));
    let product = match (amount as u128).checked_mul(widened) {
        Some(p) => p,
        None => {
            return Err(TwentyOneError::ArithmeticOverflow);
        },
    };
    match pow10(e) {
        Some(scale) => {
            proof {
                vstd::arithmetic::power::lemma_pow_positive(10, e as nat);
            }
            Ok(product / scale)
        },
        None => Err(TwentyOneError::ArithmeticOverflow),
    }
}

/// `value` lies within the slippage tolerance around `reference`, bounds
/// included; the lower bound stops at zero, the upper at the 128-bit limit.
pub open spec fn within_slippage(reference: int, value: int) -> bool {
    let slip = reference * PAYOUT_PRICE_SLIPPAGE_BPS as int / 10000;
    let lower = if reference - slip < 0 { 0 } else { reference - slip };
    let upper = if reference + slip > u128::MAX { u128::MAX as int } else { reference + slip };
    lower <= value <= upper
}

pub fn check_slippage(reference: u128, value: u128) -> (ok: bool)
    requires
        reference <= u128::MAX / 300,
    ensures
        ok == within_slippage(reference as int, value as int),
{
    let slip = reference * 300 / 10000;
    let lower = reference.saturating_sub(slip);
    let upper = reference.saturating_add(slip);
    lower <= value && value <= upper
}

/// Checks a claimed value against the oracle: reads the price from the
/// account and values `amount` with it; the claim must lie within the
/// slippage tolerance of that value.
pub open spec fn spec_verify_claimed_value(amount: u64, claimed_usd: u64, account: PriceAccount) -> Result<u128, TwentyOneError> {
    match spec_read_price(account) {
        Err(e) => Err(e),
        Ok((price, expo)) => match spec_value_usd(amount, price, expo) {
            Err(e) => Err(e),
            Ok(v) => if within_slippage(claimed_usd as int, v as int) {
                Ok(v)
            } else {
                Err(TwentyOneError::PayoutCalculationMismatch)
            },
        },
    }
}

pub fn verify_claimed_value(amount: u64, claimed_usd: u64, account: &PriceAccount) -> (r: Result<u128, TwentyOneError>)
    ensures
        r == spec_verify_claimed_value(amount, claimed_usd, *account),
{
    let (price, expo) = match read_oracle_price(account) {
        Ok(p) => p,
        Err(e) => {
            return Err(e);
        },
    };
    let v = match value_usd(amount, price, expo) {
        Ok(v) => v,
        Err(e) => {
            return Err(e);
        },
    };
    if check_slippage(claimed_usd as u128, v) {
        Ok(v)
    } else {
        Err(TwentyOneError::PayoutCalculationMismatch)
    }
}

} // verus!
