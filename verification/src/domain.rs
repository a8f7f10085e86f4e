//! Domain types independent from the CLI and storage adapters.

use vstd::prelude::*;
use vstd::std_specs::cmp::PartialEqSpec;

verus! {

/// Stable identifier assigned to a registered project.
#[derive(Debug, Clone, Eq, Hash)]
pub struct ProjectId(String);

impl PartialEq for ProjectId {
    fn eq(&self, other: &Self) -> (result: bool) {
        let a = crate::text::to_chars(self.0.as_str());
        let b = crate::text::to_chars(other.0.as_str());
        crate::text::chars_equal(&a, &b)
    }
}

impl vstd::std_specs::cmp::PartialEqSpecImpl for ProjectId {
    open spec fn obeys_eq_spec() -> bool {
        true
    }

    open spec fn eq_spec(&self, other: &Self) -> bool {
        self.value() == other.value()
    }
}

impl ProjectId {
    /// The persisted identifier value.
    pub closed spec fn value(&self) -> Seq<char> {
        self.0@
    }

    /// Create a project identifier from its persisted value.
    pub fn new(value: String) -> (result: Self)
        ensures
            result.value() == value@,
    {
        Self(value)
    }

    /// Borrow the persisted project identifier value.
    pub fn as_str(&self) -> (result: &str)
        ensures
            result@ == self.value(),
    {
        self.0.as_str()
    }
}

/// Identifiers compare exactly as their persisted values: two identifiers
/// made from the same value are equal, and from different values are not.
pub proof fn law_identifiers_compare_by_value(a: ProjectId, b: ProjectId)
    ensures
        a.eq_spec(&b) <==> a.value() == b.value(),
{
}

/// Durable lifecycle state for a registered project.
#[derive(Debug, Clone, Copy, PartialEq, Eq)]
pub enum ProjectLifecycle {
    /// The project has been registered but not inspected.
    RegisteredNeedsInspection,
    /// An inspection produced proposals awaiting review.
    InspectionPendingReview,
    /// The latest inspection baseline has been approved.
    Baselined,
    /// Repository changes exist after the approved baseline.
    ChangesDetected,
}

} // verus!
