//! A `NearGas` type to represent an amount of gas.
//!
//! Each `NearGas` holds a whole number of gas units. Amounts can be written
//! with a unit suffix (`"1.5 TGas"`, `"300 GGas"`) and are converted to gas
//! exactly, with no floating point involved.
use vstd::prelude::*;

pub mod decimal;
pub mod digits;
pub mod parse;

pub use decimal::{parse_decimal_number, DecimalNumberParsingError};

verus! {

/// Gas in one tera gas.
pub const ONE_TERA_GAS: u64 = 1_000_000_000_000;

/// Gas in one giga gas.
pub const ONE_GIGA_GAS: u64 = 1_000_000_000;

/// An amount of gas, counted in whole gas units.
#[derive(Debug, Clone, Copy, PartialEq, Eq, Structural, PartialOrd, Ord, Hash)]
pub struct NearGas {
    inner: u64,
}

impl View for NearGas {
    type V = u64;

    /// The number of gas units held.
    closed spec fn view(&self) -> u64 {
        self.inner
    }
}

impl Default for NearGas {
    fn default() -> (r: NearGas)
        ensures
            r@ == 0,
    {
        NearGas { inner: 0 }
    }
}

/// What parsing an amount of gas with a unit can fail with.
#[derive(Debug, Clone, PartialEq, Eq)]
pub enum NearGasError {
    /// The number before the unit is malformed or does not fit.
    IncorrectNumber(DecimalNumberParsingError),
    /// The unit is missing or not one of the known ones; holds the whole input.
    IncorrectUnit(String),
}

impl NearGas {
    /// Creates a `NearGas` from a number of whole tera gas. The product wraps
    /// around on overflow.
    pub fn from_tgas(inner: u64) -> (r: NearGas)
        ensures
            r@ == (inner * ONE_TERA_GAS) % 0x1_0000_0000_0000_0000,
            inner * ONE_TERA_GAS <= u64::MAX ==> r@ == inner * ONE_TERA_GAS,
    {
        NearGas { inner: inner.wrapping_mul(ONE_TERA_GAS) }
    }

    /// Creates a `NearGas` from a number of whole giga gas. The product wraps
    /// around on overflow.
    pub fn from_ggas(inner: u64) -> (r: NearGas)
        ensures
            r@ == (inner * ONE_GIGA_GAS) % 0x1_0000_0000_0000_0000,
            inner * ONE_GIGA_GAS <= u64::MAX ==> r@ == inner * ONE_GIGA_GAS,
    {
        NearGas { inner: inner.wrapping_mul(ONE_GIGA_GAS) }
    }

    /// Creates a `NearGas` from a number of gas units.
    pub fn from_gas(inner: u64) -> (r: NearGas)
        ensures
            r@ == inner,
    {
        NearGas { inner }
    }

    /// The number of gas units held.
    pub fn as_gas(self) -> (r: u64)
        ensures
            r == self@,
    {
        self.inner
    }

    /// The number of whole giga gas held, rounded down.
    pub fn as_ggas(self) -> (r: u64)
        ensures
            r == self@ / ONE_GIGA_GAS,
    {
        self.inner / ONE_GIGA_GAS
    }

    /// The number of whole tera gas held, rounded down.
    pub fn as_tgas(self) -> (r: u64)
        ensures
            r == self@ / ONE_TERA_GAS,
    {
        self.inner / ONE_TERA_GAS
    }

    /// `self + rhs`, or `None` where the sum does not fit in a `u64`.
    pub fn checked_add(self, rhs: NearGas) -> (r: Option<NearGas>)
        ensures
            self@ + rhs@ <= u64::MAX ==> r is Some && r->0@ == self@ + rhs@,
            self@ + rhs@ > u64::MAX ==> r is None,
    {
        match self.inner.checked_add(rhs.inner) {
            Some(v) => Some(NearGas::from_gas(v)),
            None => None,
        }
    }

    /// `self - rhs`, or `None` where `rhs` is larger than `self`.
    pub fn checked_sub(self, rhs: NearGas) -> (r: Option<NearGas>)
        ensures
            rhs@ <= self@ ==> r is Some && r->0@ == self@ - rhs@,
            rhs@ > self@ ==> r is None,
    {
        match self.inner.checked_sub(rhs.inner) {
            Some(v) => Some(NearGas::from_gas(v)),
            None => None,
        }
    }

    /// `self * rhs`, or `None` where the product does not fit in a `u64`.
    pub fn checked_mul(self, rhs: u64) -> (r: Option<NearGas>)
        ensures
            self@ * rhs <= u64::MAX ==> r is Some && r->0@ == self@ * rhs,
            self@ * rhs > u64::MAX ==> r is None,
    {
        match self.inner.checked_mul(rhs) {
            Some(v) => Some(NearGas::from_gas(v)),
            None => None,
        }
    }

    /// `self / rhs` rounded down, or `None` where `rhs` is zero.
    pub fn checked_div(self, rhs: u64) -> (r: Option<NearGas>)
        ensures
            rhs != 0 ==> r is Some && r->0@ == self@ / rhs,
            rhs == 0 ==> r is None,
    {
        match self.inner.checked_div(rhs) {
            Some(v) => Some(NearGas::from_gas(v)),
            None => None,
        }
    }

    /// `self + rhs`, held at `u64::MAX` where the sum does not fit.
    pub fn saturating_add(self, rhs: NearGas) -> (r: NearGas)
        ensures
            self@ + rhs@ <= u64::MAX ==> r@ == self@ + rhs@,
            self@ + rhs@ > u64::MAX ==> r@ == u64::MAX,
    {
        NearGas::from_gas(self.inner.saturating_add(rhs.inner))
    }

    /// `self - rhs`, held at zero where `rhs` is larger than `self`.
    pub fn saturating_sub(self, rhs: NearGas) -> (r: NearGas)
        ensures
            rhs@ <= self@ ==> r@ == self@ - rhs@,
            rhs@ > self@ ==> r@ == 0,
    {
        NearGas::from_gas(self.inner.saturating_sub(rhs.inner))
    }

    /// `self * rhs`, held at `u64::MAX` where the product does not fit.
    pub fn saturating_mul(self, rhs: u64) -> (r: NearGas)
        ensures
            self@ * rhs <= u64::MAX ==> r@ == self@ * rhs,
            self@ * rhs > u64::MAX ==> r@ == u64::MAX,
    {
        match self.inner.checked_mul(rhs) {
            Some(v) => NearGas::from_gas(v),
            None => NearGas::from_gas(u64::MAX),
        }
    }

    /// `self / rhs` rounded down; division by zero gives zero gas, not the
    /// largest amount.
    pub fn saturating_div(self, rhs: u64) -> (r: NearGas)
        ensures
            rhs != 0 ==> r@ == self@ / rhs,
            rhs == 0 ==> r@ == 0,
    {
        if rhs == 0 {
            return NearGas::from_gas(0);
        }
        NearGas::from_gas(self.inner / rhs)
    }
}

} // verus!
