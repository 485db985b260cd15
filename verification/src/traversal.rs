//! The traversal-model capability: the contract every concrete and composite
//! cost model implements, and the reference distance model.

use vstd::prelude::*;

use crate::graph::{latitude_distance_meters, Edge, Vertex};
use crate::json::{
    fields_view, json_from_i64, json_from_string, json_object_from_entries, number_of, object_of,
    string_of,
};
use crate::state::StateVar;
use crate::units::{milli_units_from_base, DistanceUnit};

verus! {

/// Errors raised by traversal models. All errors are value-returned; a
/// per-edge error aborts evaluation of that edge rather than being masked.
#[derive(Clone, Copy, Debug, PartialEq, Eq, Structural)]
pub enum TraversalModelError {
    /// Malformed model configuration, found once at construction time.
    BuildError,
    /// A state-vector structural violation: a variable name unknown to the
    /// model, or an index beyond the state's length.
    InternalError,
    /// A unit conversion or geometric computation left the representable
    /// fixed-point range.
    NumericError,
    /// An underlying regressor failed for one call.
    PredictionModel,
}

/// The position of the first name equal to `key`, if any.
pub open spec fn find_name(names: Seq<Seq<char>>, key: Seq<char>) -> Option<int>
    decreases names.len(),
{
    if names.len() == 0 {
        None
    } else if names[0] == key {
        Some(0int)
    } else {
        match find_name(names.drop_first(), key) {
            Some(i) => Some(i + 1),
            None => None,
        }
    }
}

/// The value `get_state_variable` owes for a lookup of `key` in a state
/// vector laid out by `names`: the state variable at the key's index, an
/// `InternalError` when the name is unknown or its index is absent.
pub open spec fn get_variable_spec(
    names: Seq<Seq<char>>,
    key: Seq<char>,
    state: Seq<StateVar>,
) -> Result<StateVar, TraversalModelError> {
    match find_name(names, key) {
        Some(i) => if i < state.len() {
            Ok(state[i])
        } else {
            Err(TraversalModelError::InternalError)
        },
        None => Err(TraversalModelError::InternalError),
    }
}

/// A returned state vector, as the sequence it holds.
pub open spec fn state_result_view(r: Result<Vec<StateVar>, TraversalModelError>) -> Result<
    Seq<StateVar>,
    TraversalModelError,
> {
    match r {
        Ok(v) => Ok(v@),
        Err(e) => Err(e),
    }
}

/// A returned optional state vector, as the sequence it holds.
pub open spec fn access_result_view(
    r: Result<Option<Vec<StateVar>>, TraversalModelError>,
) -> Result<Option<Seq<StateVar>>, TraversalModelError> {
    match r {
        Ok(Some(v)) => Ok(Some(v@)),
        Ok(None) => Ok(None),
        Err(e) => Err(e),
    }
}

/// The capability contract of a traversal model. A model owns an ordered
/// list of state dimensions; every operation is a pure function of the model
/// configuration and its inputs, so instances are safe to share read-only
/// across arbitrarily many concurrent callers.
pub trait TraversalModel: Sized {
    /// The names of the dimensions this model owns, in the order they occupy
    /// in its slice of the state vector.
    spec fn names_spec(&self) -> Seq<Seq<char>>;

    /// The state before any edge is traversed.
    spec fn initial_spec(&self) -> Seq<StateVar>;

    /// The state this model owes for traversing `edge`, or the error that
    /// aborts the edge.
    spec fn traverse_spec(&self, src: Vertex, edge: Edge, dst: Vertex, state: Seq<StateVar>)
        -> Result<Seq<StateVar>, TraversalModelError>;

    /// The extra state adjustment this model owes for a transition through a
    /// vertex between two edges; `None` when it has no transition-dependent
    /// behavior.
    spec fn access_spec(
        &self,
        v1: Vertex,
        src: Edge,
        v2: Vertex,
        dst: Edge,
        v3: Vertex,
        state: Seq<StateVar>,
    ) -> Result<Option<Seq<StateVar>>, TraversalModelError>;

    /// The admissible lower-bound projection of state this model owes for
    /// reaching `dst` from `src` without graph traversal.
    spec fn estimate_spec(&self, src: Vertex, dst: Vertex, state: Seq<StateVar>) -> Result<
        Seq<StateVar>,
        TraversalModelError,
    >;

    /// A model declares one name per dimension of its initial state.
    proof fn wf_properties(&self)
        ensures
            self.names_spec().len() == self.initial_spec().len(),
    ;

    /// A successful traversal returns the full state vector: unaffected
    /// dimensions are copied through, so the length never changes.
    proof fn traverse_preserves_len(
        &self,
        src: Vertex,
        edge: Edge,
        dst: Vertex,
        state: Seq<StateVar>,
    )
        ensures
            self.traverse_spec(src, edge, dst, state) matches Ok(ns) ==> ns.len() == state.len(),
    ;

    /// A successful access adjustment returns the full state vector.
    proof fn access_preserves_len(
        &self,
        v1: Vertex,
        src: Edge,
        v2: Vertex,
        dst: Edge,
        v3: Vertex,
        state: Seq<StateVar>,
    )
        ensures
            self.access_spec(v1, src, v2, dst, v3, state) matches Ok(Some(ns)) ==> ns.len()
                == state.len(),
    ;

    /// A successful estimate returns the full state vector.
    proof fn estimate_preserves_len(&self, src: Vertex, dst: Vertex, state: Seq<StateVar>)
        ensures
            self.estimate_spec(src, dst, state) matches Ok(ns) ==> ns.len() == state.len(),
    ;

    /// Declares the dimensions this model owns, in slice order.
    fn state_variable_names(&self) -> (r: Vec<String>)
        ensures
            r@.map_values(|s: String| s@) == self.names_spec(),
    ;

    /// The state before any edge is traversed.
    fn initial_state(&self) -> (r: Vec<StateVar>)
        ensures
            r@ == self.initial_spec(),
    ;

    /// Looks one named dimension up in a state vector of this model's
    /// layout; an `InternalError` signals structural corruption: a name this
    /// model does not own, or a state too short for the name's index.
    fn get_state_variable(&self, key: &str, state: &Vec<StateVar>) -> (r: Result<
        StateVar,
        TraversalModelError,
    >)
        ensures
            r == get_variable_spec(self.names_spec(), key@, state@),
    ;

    /// Computes this model's incremental contribution for moving along
    /// `edge`, returning the full updated state.
    fn traverse_edge(&self, src: &Vertex, edge: &Edge, dst: &Vertex, state: &Vec<StateVar>) -> (r:
        Result<Vec<StateVar>, TraversalModelError>)
        requires
            state@.len() == self.initial_spec().len(),
            src.coordinate.is_valid(),
            dst.coordinate.is_valid(),
        ensures
            state_result_view(r) == self.traverse_spec(*src, *edge, *dst, state@),
    ;

    /// Computes this model's extra state adjustment for a vertex-mediated
    /// transition from `src` to `dst`.
    fn access_edge(
        &self,
        v1: &Vertex,
        src: &Edge,
        v2: &Vertex,
        dst: &Edge,
        v3: &Vertex,
        state: &Vec<StateVar>,
    ) -> (r: Result<Option<Vec<StateVar>>, TraversalModelError>)
        requires
            state@.len() == self.initial_spec().len(),
        ensures
            access_result_view(r) == self.access_spec(*v1, *src, *v2, *dst, *v3, state@),
    ;

    /// Projects state forward to `dst` without graph traversal: a cheap
    /// lower bound usable as a search heuristic.
    fn estimate_traversal(&self, src: &Vertex, dst: &Vertex, state: &Vec<StateVar>) -> (r: Result<
        Vec<StateVar>,
        TraversalModelError,
    >)
        requires
            state@.len() == self.initial_spec().len(),
            src.coordinate.is_valid(),
            dst.coordinate.is_valid(),
        ensures
            state_result_view(r) == self.estimate_spec(*src, *dst, state@),
    ;

    /// The summary document `serialize_state` owes for a state of this
    /// model's layout.
    spec fn serialize_state_spec(&self, state: Seq<StateVar>) -> serde_json::Value;

    /// The metadata document `serialize_state_info` owes.
    spec fn serialize_state_info_spec(&self, state: Seq<StateVar>) -> serde_json::Value;

    /// A user-facing summary of the values of this model's dimensions.
    fn serialize_state(&self, state: &Vec<StateVar>) -> (r: serde_json::Value)
        requires
            state@.len() == self.initial_spec().len(),
        ensures
            r == self.serialize_state_spec(state@),
    ;

    /// A user-facing summary of the units and metadata of this model's
    /// dimensions.
    fn serialize_state_info(&self, state: &Vec<StateVar>) -> (r: serde_json::Value)
        requires
            state@.len() == self.initial_spec().len(),
        ensures
            r == self.serialize_state_info_spec(state@),
    ;
}

/// A simple traversal model that uses the edge distance as the cost of
/// traversal: one dimension, accumulated in milli-units of the configured
/// distance unit. Its traversal estimate deliberately weakens the usual
/// great-circle heuristic to the meridian distance of the latitude
/// difference: a coarser, integer-only lower bound that never
/// overestimates; a tighter integer bound could replace it without
/// changing the contract's shape.
pub struct DistanceTraversalModel {
    pub distance_unit: DistanceUnit,
}

impl DistanceTraversalModel {
    pub fn new(distance_unit: DistanceUnit) -> (r: DistanceTraversalModel)
        ensures
            r.distance_unit == distance_unit,
    {
        DistanceTraversalModel { distance_unit }
    }
}

/// The single dimension of the distance model, increased by a distance of
/// `meters` base units converted to the model's unit; a `NumericError` when
/// the conversion or the accumulated value leaves the fixed-point range.
pub open spec fn add_distance_spec(
    unit: DistanceUnit,
    meters: u64,
    state: Seq<StateVar>,
) -> Result<Seq<StateVar>, TraversalModelError> {
    if state.len() == 0 {
        Err(TraversalModelError::InternalError)
    } else {
        let conv = milli_units_from_base(unit, meters as int);
        let sum = state[0].0 + conv;
        if conv <= i64::MAX && i64::MIN <= sum <= i64::MAX {
            Ok(state.update(0, StateVar(sum as i64)))
        } else {
            Err(TraversalModelError::NumericError)
        }
    }
}

impl TraversalModel for DistanceTraversalModel {
    open spec fn names_spec(&self) -> Seq<Seq<char>> {
        seq!["distance"@]
    }

    open spec fn initial_spec(&self) -> Seq<StateVar> {
        seq![StateVar(0)]
    }

    open spec fn traverse_spec(
        &self,
        src: Vertex,
        edge: Edge,
        dst: Vertex,
        state: Seq<StateVar>,
    ) -> Result<Seq<StateVar>, TraversalModelError> {
        add_distance_spec(self.distance_unit, edge.distance_meters, state)
    }

    open spec fn access_spec(
        &self,
        v1: Vertex,
        src: Edge,
        v2: Vertex,
        dst: Edge,
        v3: Vertex,
        state: Seq<StateVar>,
    ) -> Result<Option<Seq<StateVar>>, TraversalModelError> {
        Ok(None)
    }

    open spec fn estimate_spec(&self, src: Vertex, dst: Vertex, state: Seq<StateVar>) -> Result<
        Seq<StateVar>,
        TraversalModelError,
    > {
        add_distance_spec(
            self.distance_unit,
            latitude_distance_meters(src.coordinate, dst.coordinate) as u64,
            state,
        )
    }

    open spec fn serialize_state_spec(&self, state: Seq<StateVar>) -> serde_json::Value {
        object_of(seq![("distance"@, number_of(state[0].0 as int))])
    }

    open spec fn serialize_state_info_spec(&self, state: Seq<StateVar>) -> serde_json::Value {
        object_of(seq![("distance_unit"@, string_of(self.distance_unit.name_spec()))])
    }

    proof fn wf_properties(&self) {
    }

    proof fn traverse_preserves_len(
        &self,
        src: Vertex,
        edge: Edge,
        dst: Vertex,
        state: Seq<StateVar>,
    ) {
    }

    proof fn access_preserves_len(
        &self,
        v1: Vertex,
        src: Edge,
        v2: Vertex,
        dst: Edge,
        v3: Vertex,
        state: Seq<StateVar>,
    ) {
    }

    proof fn estimate_preserves_len(&self, src: Vertex, dst: Vertex, state: Seq<StateVar>) {
    }

    fn state_variable_names(&self) -> (r: Vec<String>) {
        let mut names: Vec<String> = Vec::new();
        names.push("distance".to_owned());
        proof {
            assert(names@.map_values(|s: String| s@) =~= self.names_spec());
        }
        names
    }

    fn initial_state(&self) -> (r: Vec<StateVar>) {
        let mut state: Vec<StateVar> = Vec::new();
        state.push(StateVar(0));
        proof {
            assert(state@ =~= self.initial_spec());
        }
        state
    }

    fn get_state_variable(&self, key: &str, state: &Vec<StateVar>) -> (r: Result<
        StateVar,
        TraversalModelError,
    >) {
        let owned_key: String = key.to_owned();
        let dimension: String = "distance".to_owned();
        proof {
            assert(self.names_spec().drop_first() =~= Seq::<Seq<char>>::empty());
            assert(find_name(Seq::<Seq<char>>::empty(), key@) is None);
        }
        if owned_key == dimension {
            if state.len() >= 1 {
                Ok(state[0])
            } else {
                Err(TraversalModelError::InternalError)
            }
        } else {
            Err(TraversalModelError::InternalError)
        }
    }

    fn traverse_edge(&self, src: &Vertex, edge: &Edge, dst: &Vertex, state: &Vec<StateVar>) -> (r:
        Result<Vec<StateVar>, TraversalModelError>) {
        add_distance(self.distance_unit, edge.distance_meters, state)
    }

    fn access_edge(
        &self,
        v1: &Vertex,
        src: &Edge,
        v2: &Vertex,
        dst: &Edge,
        v3: &Vertex,
        state: &Vec<StateVar>,
    ) -> (r: Result<Option<Vec<StateVar>>, TraversalModelError>) {
        Ok(None)
    }

    fn estimate_traversal(&self, src: &Vertex, dst: &Vertex, state: &Vec<StateVar>) -> (r: Result<
        Vec<StateVar>,
        TraversalModelError,
    >) {
        let meters: u64 = crate::graph::lower_bound_distance_meters(
            &src.coordinate,
            &dst.coordinate,
        );
        add_distance(self.distance_unit, meters, state)
    }

    fn serialize_state(&self, state: &Vec<StateVar>) -> (r: serde_json::Value) {
        let mut entries: Vec<(String, serde_json::Value)> = Vec::new();
        entries.push(("distance".to_owned(), json_from_i64(state[0].0)));
        proof {
            assert(fields_view(entries@) =~= seq![
                ("distance"@, number_of(state@[0].0 as int)),
            ]);
        }
        json_object_from_entries(entries)
    }

    fn serialize_state_info(&self, state: &Vec<StateVar>) -> (r: serde_json::Value) {
        let mut entries: Vec<(String, serde_json::Value)> = Vec::new();
        entries.push(("distance_unit".to_owned(), json_from_string(self.distance_unit.name())));
        proof {
            assert(fields_view(entries@) =~= seq![
                ("distance_unit"@, string_of(self.distance_unit.name_spec())),
            ]);
        }
        json_object_from_entries(entries)
    }
}

/// The heuristic of the distance model adds nothing between two identical
/// coordinates: estimating a traversal from a vertex to itself returns the
/// state unchanged.
pub proof fn lemma_estimate_identical_coordinates(
    m: DistanceTraversalModel,
    v: Vertex,
    state: Seq<StateVar>,
)
    requires
        state.len() == 1,
    ensures
        m.estimate_spec(v, v, state) == Ok::<Seq<StateVar>, TraversalModelError>(state),
{
    assert(latitude_distance_meters(v.coordinate, v.coordinate) == 0);
    assert(milli_units_from_base(m.distance_unit, 0) == 0);
    assert(state[0].0 + 0 == state[0].0);
    assert(StateVar(state[0].0) == state[0]);
    assert(state.update(0, state[0]) =~= state);
}

/// Adds a distance of `meters` base units, converted to milli-`unit`s, onto
/// the first dimension of `state`, copying the rest through unchanged.
fn add_distance(unit: DistanceUnit, meters: u64, state: &Vec<StateVar>) -> (r: Result<
    Vec<StateVar>,
    TraversalModelError,
>)
    requires
        state@.len() >= 1,
    ensures
        state_result_view(r) == add_distance_spec(unit, meters, state@),
{
    match unit.convert_from_base(meters) {
        Some(conv) => {
            match state[0].add(&StateVar(conv)) {
                Some(updated) => {
                    let mut next: Vec<StateVar> = Vec::new();
                    next.push(updated);
                    let mut i: usize = 1;
                    while i < state.len()
                        invariant
                            1 <= i <= state@.len(),
                            state@.len() >= 1,
                            next@.len() == i,
                            next@[0] == updated,
                            forall|j: int| 1 <= j < i ==> next@[j] == state@[j],
                        decreases state@.len() - i,
                    {
                        next.push(state[i]);
                        i = i + 1;
                    }
                    proof {
                        assert(next@ =~= add_distance_spec(unit, meters, state@).unwrap());
                    }
                    Ok(next)
                },
                None => Err(TraversalModelError::NumericError),
            }
        },
        None => Err(TraversalModelError::NumericError),
    }
}

} // verus!
