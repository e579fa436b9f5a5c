//! `==` and the comparison operators on `SemVer`, through the standard traits.
use vstd::prelude::*;
use core::cmp::Ordering;
use vstd::std_specs::cmp::PartialEqSpec;
use vstd::std_specs::cmp::PartialEqSpecImpl;
use vstd::std_specs::cmp::PartialOrdSpecImpl;
use crate::semver::{SemVer, VersionOrder, lemma_version_order_equal, version_partial_order};

verus! {

/// The standard `Ordering` for a comparison result.
pub open spec fn to_ordering(o: Option<VersionOrder>) -> Option<Ordering> {
    match o {
        None => None,
        Some(VersionOrder::Less) => Some(Ordering::Less),
        Some(VersionOrder::Equal) => Some(Ordering::Equal),
        Some(VersionOrder::Greater) => Some(Ordering::Greater),
    }
}

impl PartialEq for SemVer {
    /// Two versions are equal when they compare `Equal`.
    fn eq(&self, other: &Self) -> (r: bool) {
        if let Some(order) = &self.partial_cmp(other) {
            return match order {
                Ordering::Less => false,
                Ordering::Equal => true,
                Ordering::Greater => false,
            };
        }
        false
    }
}

impl PartialEqSpecImpl for SemVer {
    open spec fn obeys_eq_spec() -> bool {
        true
    }

    open spec fn eq_spec(&self, other: &Self) -> bool {
        version_partial_order(self@, other@) == Some(VersionOrder::Equal)
    }
}

impl PartialOrd for SemVer {
    /// Compares component by component; see `version_order`.
    fn partial_cmp(&self, other: &Self) -> (r: Option<Ordering>)
        ensures
            r is Some,
    {
        match self.compare(other) {
            None => None,
            Some(VersionOrder::Less) => Some(Ordering::Less),
            Some(VersionOrder::Equal) => Some(Ordering::Equal),
            Some(VersionOrder::Greater) => Some(Ordering::Greater),
        }
    }

    fn lt(&self, other: &Self) -> (r: bool) {
        match self.partial_cmp(other) {
            Some(Ordering::Less) => true,
            _ => false,
        }
    }

    fn le(&self, other: &Self) -> (r: bool) {
        match self.partial_cmp(other) {
            Some(Ordering::Less) => true,
            Some(Ordering::Equal) => true,
            _ => false,
        }
    }

    fn gt(&self, other: &Self) -> (r: bool) {
        match self.partial_cmp(other) {
            Some(Ordering::Greater) => true,
            _ => false,
        }
    }

    fn ge(&self, other: &Self) -> (r: bool) {
        match self.partial_cmp(other) {
            Some(Ordering::Greater) => true,
            Some(Ordering::Equal) => true,
            _ => false,
        }
    }
}

impl PartialOrdSpecImpl for SemVer {
    open spec fn obeys_partial_cmp_spec() -> bool {
        true
    }

    open spec fn partial_cmp_spec(&self, other: &Self) -> Option<Ordering> {
        to_ordering(version_partial_order(self@, other@))
    }
}

/// Two versions are `==` exactly when they have the same components.
pub proof fn lemma_eq_same_components(a: &SemVer, b: &SemVer)
    requires
        a@.len() > 0,
    ensures
        PartialEqSpec::eq_spec(a, b) == (a@ == b@),
{
    lemma_version_order_equal(a@, b@);
}

} // verus!
