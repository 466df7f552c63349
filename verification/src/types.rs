//! Plain types shared by the library: amounts, timestamps and the records
//! that fungible token contracts take and give.
use vstd::prelude::*;

use crate::decimal::{parse_u128, parse_u128_spec};

verus! {

/// A point in time, in the unit that the operation at hand names.
pub type Timestamp = u64;

/// The number of decimals of a fungible token.
pub type TokenDecimals = u8;

/// NEP-148 fungible token metadata, as handed to a token contract's `new`.
#[derive(Debug, Clone)]
pub struct FungibleTokenMetadata {
    pub spec: String,
    pub name: String,
    pub symbol: String,
    pub decimals: TokenDecimals,
    pub icon: Option<String>,
    pub reference: Option<String>,
    pub reference_hash: Option<String>,
}

/// NEP-148 storage balance bounds, as a token contract's view returns them:
/// amounts in yoctoNEAR, written as decimal text.
#[derive(Debug, Clone)]
pub struct StorageBalanceBounds {
    pub min: String,
    pub max: Option<String>,
}

impl StorageBalanceBounds {
    /// The minimum storage deposit in yoctoNEAR: the value of the decimal
    /// text `min`, which must read as a `u128`.
    pub fn min_yocto(&self) -> (r: u128)
        requires
            parse_u128_spec(self.min@) is Some,
        ensures
            Some(r) == parse_u128_spec(self.min@),
    {
        match parse_u128(self.min.as_str()) {
            Some(v) => v,
            None => 0,
        }
    }
}

} // verus!
