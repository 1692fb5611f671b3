//! Shared primitive types of the ledger: identifiers, bounds, and the
//! bounded document reference that applications carry.

use vstd::prelude::*;

verus! {

/// Identity of an authenticated caller (an account on the host ledger).
pub type AccountId = u64;

/// A discrete time step of the host ledger.
pub type BlockNumber = u64;

/// Uniquely represents any item of the ledger (an institution, a validator, ...).
#[derive(Clone, Copy, PartialEq, Eq, Structural, Debug)]
pub struct UniqId {
    pub id: u64,
}

/// A bound that is either a concrete limit or absent.
#[derive(Clone, PartialEq, Eq, Debug)]
pub enum Scaler<Bound> {
    Limited(Bound),
    Unlimited,
}

impl<Bound> Scaler<Bound> {
    /// True exactly when a concrete limit is present.
    pub fn is_limited(&self) -> (r: bool)
        ensures
            r == (self is Limited),
    {
        matches!(self, Scaler::Limited(..))
    }

    /// True exactly when no limit is present.
    pub fn is_unlimited(&self) -> (r: bool)
        ensures
            r == (self is Unlimited),
    {
        matches!(self, Scaler::Unlimited)
    }

    /// The concrete limit, if one is present.
    pub fn limit(&self) -> (r: Option<&Bound>)
        ensures
            match r {
                Some(bound) => *self matches Scaler::Limited(b) && *bound == b,
                None => self is Unlimited,
            },
    {
        match self {
            Scaler::Limited(bound) => Some(bound),
            Scaler::Unlimited => None,
        }
    }
}

} // verus!
