//! Monetary amounts: a decimal, never a float.
use vstd::prelude::*;

use crate::decimal::{
    decimal_display, decimal_to_string, dec_add, dec_div, dec_mul, dec_sub, sadd, sdiv, smul, ssub,
    Dec, Overflow,
};

verus! {

/// A monetary value.
#[derive(Clone, Copy, Debug)]
pub struct Money(pub Dec);

impl Money {
    /// Zero.
    pub fn zero() -> (r: Money)
        ensures
            r.0 == Dec::spec_zero(),
    {
        Money(Dec::zero())
    }

    pub fn new(d: Dec) -> (r: Money)
        ensures
            r.0 == d,
    {
        Money(d)
    }

    pub fn inner(self) -> (r: Dec)
        ensures
            r == self.0,
    {
        self.0
    }

    /// The amount is below zero.
    pub fn is_negative(self) -> (r: bool)
        ensures
            r == self.0.spec_is_neg(),
    {
        self.0.is_sign_negative()
    }

    /// The amount is above zero.
    pub fn is_positive(self) -> (r: bool)
        ensures
            r == self.0.spec_is_pos(),
    {
        self.0.is_sign_positive() && !self.0.is_zero()
    }

    pub fn is_zero(self) -> (r: bool)
        ensures
            r == self.0.spec_is_zero(),
    {
        self.0.is_zero()
    }

    /// The magnitude.
    pub fn abs(self) -> (r: Money)
        requires
            self.0.wf(),
        ensures
            r.0 == self.0.spec_abs(),
    {
        Money(self.0.abs())
    }

    /// The negated amount.
    pub fn neg(self) -> (r: Money)
        requires
            self.0.wf(),
        ensures
            r.0 == self.0.spec_neg(),
    {
        Money(self.0.neg())
    }

    /// `self + rhs`.
    pub fn add(self, rhs: Money) -> (r: Result<Money, Overflow>)
        requires
            self.0.wf(),
            rhs.0.wf(),
        ensures
            match sadd(self.0, rhs.0) {
                Ok(d) => r == Ok::<Money, Overflow>(Money(d)),
                Err(_) => r is Err,
            },
    {
        Ok(Money(dec_add(self.0, rhs.0)?))
    }

    /// Adds `rhs` in place; on overflow the amount is unchanged.
    pub fn add_assign(&mut self, rhs: Money) -> (r: Result<(), Overflow>)
        requires
            old(self).0.wf(),
            rhs.0.wf(),
        ensures
            match sadd(old(self).0, rhs.0) {
                Ok(d) => r is Ok && final(self).0 == d,
                Err(_) => r is Err && *final(self) == *old(self),
            },
    {
        let d = dec_add(self.0, rhs.0)?;
        self.0 = d;
        Ok(())
    }

    /// Subtracts `rhs` in place; on overflow the amount is unchanged.
    pub fn sub_assign(&mut self, rhs: Money) -> (r: Result<(), Overflow>)
        requires
            old(self).0.wf(),
            rhs.0.wf(),
        ensures
            match ssub(old(self).0, rhs.0) {
                Ok(d) => r is Ok && final(self).0 == d,
                Err(_) => r is Err && *final(self) == *old(self),
            },
    {
        let d = dec_sub(self.0, rhs.0)?;
        self.0 = d;
        Ok(())
    }

    /// `self - rhs`.
    pub fn sub(self, rhs: Money) -> (r: Result<Money, Overflow>)
        requires
            self.0.wf(),
            rhs.0.wf(),
        ensures
            match ssub(self.0, rhs.0) {
                Ok(d) => r == Ok::<Money, Overflow>(Money(d)),
                Err(_) => r is Err,
            },
    {
        Ok(Money(dec_sub(self.0, rhs.0)?))
    }

    /// `self * rhs` for a plain decimal factor.
    pub fn mul(self, rhs: Dec) -> (r: Result<Money, Overflow>)
        requires
            self.0.wf(),
            rhs.wf(),
        ensures
            match smul(self.0, rhs) {
                Ok(d) => r == Ok::<Money, Overflow>(Money(d)),
                Err(_) => r is Err,
            },
    {
        Ok(Money(dec_mul(self.0, rhs)?))
    }

    /// `self / rhs` for a plain decimal divisor (`Err` also for zero).
    pub fn div(self, rhs: Dec) -> (r: Result<Money, Overflow>)
        requires
            self.0.wf(),
            rhs.wf(),
        ensures
            match sdiv(self.0, rhs) {
                Ok(d) => r == Ok::<Money, Overflow>(Money(d)),
                Err(_) => r is Err,
            },
    {
        Ok(Money(dec_div(self.0, rhs)?))
    }

    /// The amount as text, as the decimal displays it.
    pub fn to_string(&self) -> (r: String)
        requires
            self.0.wf(),
        ensures
            r@ == decimal_display(self.0),
    {
        decimal_to_string(self.0)
    }
}

/// A plain decimal factor times an amount: `d * m`.
pub fn mul_money(d: Dec, m: Money) -> (r: Result<Money, Overflow>)
    requires
        d.wf(),
        m.0.wf(),
    ensures
        match smul(d, m.0) {
            Ok(x) => r == Ok::<Money, Overflow>(Money(x)),
            Err(_) => r is Err,
        },
{
    Ok(Money(dec_mul(d, m.0)?))
}

} // verus!
