//! The traversal-state and cost protocol shared by every traversal model:
//! scalar state variables, the accumulated state vector, scalar costs, and
//! the result of evaluating an edge-to-edge transition.

use vstd::prelude::*;

verus! {

/// One dimension of accumulated path state: a fixed-point scalar counting
/// thousandths of the owning model's configured unit. Immutable value type;
/// models derive new states rather than mutating one in place.
#[derive(Clone, Copy, Debug, PartialEq, Eq, Structural)]
pub struct StateVar(pub i64);

impl StateVar {
    /// Checked addition of two state variables; `None` when the sum leaves
    /// the representable range.
    pub fn add(&self, other: &StateVar) -> (r: Option<StateVar>)
        ensures
            i64::MIN <= self.0 + other.0 <= i64::MAX ==> r == Some(StateVar(
                (self.0 + other.0) as i64,
            )),
            !(i64::MIN <= self.0 + other.0 <= i64::MAX) ==> r is None,
    {
        match self.0.checked_add(other.0) {
            Some(v) => Some(StateVar(v)),
            None => None,
        }
    }
}

/// A non-negative scalar used to rank candidate paths, counting thousandths
/// of the engine's cost unit. The identity value is `Cost::zero()`.
#[derive(Clone, Copy, Debug, PartialEq, Eq, Structural)]
pub struct Cost(pub u64);

impl Cost {
    /// The identity cost.
    pub fn zero() -> (r: Cost)
        ensures
            r.0 == 0,
    {
        Cost(0)
    }
}

/// The result of evaluating a transition through a vertex from one edge to
/// the next. `updated_state == None` means the model contributes no extra
/// state change for this transition, only (possibly zero) cost.
#[derive(Clone, Debug)]
pub struct AccessResult {
    pub cost: Cost,
    pub updated_state: Option<Vec<StateVar>>,
}

impl AccessResult {
    /// The identity result, for models that never apply extra access cost:
    /// zero cost and no state change.
    pub fn no_cost() -> (r: AccessResult)
        ensures
            r.cost.0 == 0,
            r.updated_state is None,
    {
        AccessResult { cost: Cost::zero(), updated_state: None }
    }
}

} // verus!
