//! The order of Heddle versions: by major, then minor, then patch.

use vstd::prelude::*;
use core::cmp::Ordering;
use vstd::std_specs::cmp::PartialOrdSpecImpl;
use crate::version::{HeddleVersion, lemma_view_is_fields, version_lt};

verus! {

/// Compares two components.
fn compare_component(a: u64, b: u64) -> (r: Ordering)
    ensures
        r == Ordering::Less <==> a < b,
        r == Ordering::Equal <==> a == b,
        r == Ordering::Greater <==> a > b,
{
    if a < b {
        Ordering::Less
    } else if a == b {
        Ordering::Equal
    } else {
        Ordering::Greater
    }
}

/// The lexicographic comparison of two version triples.
pub open spec fn version_order(a: (u64, u64, u64), b: (u64, u64, u64)) -> Ordering {
    if version_lt(a, b) {
        Ordering::Less
    } else if a == b {
        Ordering::Equal
    } else {
        Ordering::Greater
    }
}

impl PartialOrdSpecImpl for HeddleVersion {
    open spec fn obeys_partial_cmp_spec() -> bool {
        true
    }

    open spec fn partial_cmp_spec(&self, other: &HeddleVersion) -> Option<Ordering> {
        Some(version_order(self@, other@))
    }
}

impl PartialOrd for HeddleVersion {
    fn partial_cmp(&self, other: &HeddleVersion) -> (r: Option<Ordering>) {
        let by_major = compare_component(self.major, other.major);
        let ordering = match by_major {
            Ordering::Equal => match compare_component(self.minor, other.minor) {
                Ordering::Equal => compare_component(self.patch, other.patch),
                by_minor => by_minor,
            },
            _ => by_major,
        };
        proof {
            lemma_view_is_fields(*self);
            lemma_view_is_fields(*other);
        }
        Some(ordering)
    }
}

} // verus!
