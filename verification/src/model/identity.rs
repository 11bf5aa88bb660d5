//! When two records are the same record: equality and hashing go by the
//! instance identifier and the flow name, whatever the graphs hold.

use crate::model::record::DataFlowRecord;
use vstd::prelude::*;
use vstd::std_specs::cmp::PartialEqSpecImpl;

verus! {

impl PartialEq for DataFlowRecord {
    fn eq(&self, other: &DataFlowRecord) -> (r: bool) {
        self.uuid == other.uuid && self.flow == other.flow
    }
}

impl PartialEqSpecImpl for DataFlowRecord {
    open spec fn obeys_eq_spec() -> bool {
        true
    }

    open spec fn eq_spec(&self, other: &DataFlowRecord) -> bool {
        self.uuid == other.uuid && self.flow@ == other.flow@
    }
}

impl Eq for DataFlowRecord {

}

/// Trusted: std's hashing of a `u128` into a hasher. Nothing is claimed of
/// what the hasher holds afterwards.
pub assume_specification<H: core::hash::Hasher>[ <u128 as core::hash::Hash>::hash ](
    value: &u128,
    state: &mut H,
);

/// Trusted: std's hashing of a `String` into a hasher. Nothing is claimed of
/// what the hasher holds afterwards.
pub assume_specification<H: core::hash::Hasher>[ <String as core::hash::Hash>::hash ](
    value: &String,
    state: &mut H,
);

impl core::hash::Hash for DataFlowRecord {
    fn hash<H: core::hash::Hasher>(&self, state: &mut H) {
        self.uuid.hash(state);
        self.flow.hash(state);
    }
}

} // verus!
