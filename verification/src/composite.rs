//! Composition of traversal models: a composite model holds an ordered list
//! of component models, each assigned a disjoint, contiguous slice of the
//! overall state vector, and dispatches every operation per slice.

use vstd::prelude::*;

use crate::graph::{Edge, Vertex};
use crate::json::{fields_view, json_object_from_entries, object_of};
use crate::state::StateVar;
use crate::traversal::{
    find_name, get_variable_spec, DistanceTraversalModel, TraversalModel, TraversalModelError,
};

verus! {

/// A concrete component model usable inside a composite, as a closed set of
/// variants selected at construction time.
pub enum ComponentModel {
    Distance(DistanceTraversalModel),
}

impl TraversalModel for ComponentModel {
    open spec fn names_spec(&self) -> Seq<Seq<char>> {
        match *self {
            ComponentModel::Distance(m) => m.names_spec(),
        }
    }

    open spec fn initial_spec(&self) -> Seq<StateVar> {
        match *self {
            ComponentModel::Distance(m) => m.initial_spec(),
        }
    }

    open spec fn traverse_spec(
        &self,
        src: Vertex,
        edge: Edge,
        dst: Vertex,
        state: Seq<StateVar>,
    ) -> Result<Seq<StateVar>, TraversalModelError> {
        match *self {
            ComponentModel::Distance(m) => m.traverse_spec(src, edge, dst, state),
        }
    }

    open spec fn access_spec(
        &self,
        v1: Vertex,
        src: Edge,
        v2: Vertex,
        dst: Edge,
        v3: Vertex,
        state: Seq<StateVar>,
    ) -> Result<Option<Seq<StateVar>>, TraversalModelError> {
        match *self {
            ComponentModel::Distance(m) => m.access_spec(v1, src, v2, dst, v3, state),
        }
    }

    open spec fn estimate_spec(&self, src: Vertex, dst: Vertex, state: Seq<StateVar>) -> Result<
        Seq<StateVar>,
        TraversalModelError,
    > {
        match *self {
            ComponentModel::Distance(m) => m.estimate_spec(src, dst, state),
        }
    }

    open spec fn serialize_state_spec(&self, state: Seq<StateVar>) -> serde_json::Value {
        match *self {
            ComponentModel::Distance(m) => m.serialize_state_spec(state),
        }
    }

    open spec fn serialize_state_info_spec(&self, state: Seq<StateVar>) -> serde_json::Value {
        match *self {
            ComponentModel::Distance(m) => m.serialize_state_info_spec(state),
        }
    }

    proof fn wf_properties(&self) {
        match *self {
            ComponentModel::Distance(m) => m.wf_properties(),
        }
    }

    proof fn traverse_preserves_len(
        &self,
        src: Vertex,
        edge: Edge,
        dst: Vertex,
        state: Seq<StateVar>,
    ) {
        match *self {
            ComponentModel::Distance(m) => m.traverse_preserves_len(src, edge, dst, state),
        }
    }

    proof fn access_preserves_len(
        &self,
        v1: Vertex,
        src: Edge,
        v2: Vertex,
        dst: Edge,
        v3: Vertex,
        state: Seq<StateVar>,
    ) {
        match *self {
            ComponentModel::Distance(m) => m.access_preserves_len(v1, src, v2, dst, v3, state),
        }
    }

    proof fn estimate_preserves_len(&self, src: Vertex, dst: Vertex, state: Seq<StateVar>) {
        match *self {
            ComponentModel::Distance(m) => m.estimate_preserves_len(src, dst, state),
        }
    }

    fn state_variable_names(&self) -> (r: Vec<String>) {
        match self {
            ComponentModel::Distance(m) => m.state_variable_names(),
        }
    }

    fn initial_state(&self) -> (r: Vec<StateVar>) {
        match self {
            ComponentModel::Distance(m) => m.initial_state(),
        }
    }

    fn get_state_variable(&self, key: &str, state: &Vec<StateVar>) -> (r: Result<
        StateVar,
        TraversalModelError,
    >) {
        match self {
            ComponentModel::Distance(m) => m.get_state_variable(key, state),
        }
    }

    fn traverse_edge(&self, src: &Vertex, edge: &Edge, dst: &Vertex, state: &Vec<StateVar>) -> (r:
        Result<Vec<StateVar>, TraversalModelError>) {
        match self {
            ComponentModel::Distance(m) => m.traverse_edge(src, edge, dst, state),
        }
    }

    fn access_edge(
        &self,
        v1: &Vertex,
        src: &Edge,
        v2: &Vertex,
        dst: &Edge,
        v3: &Vertex,
        state: &Vec<StateVar>,
    ) -> (r: Result<Option<Vec<StateVar>>, TraversalModelError>) {
        match self {
            ComponentModel::Distance(m) => m.access_edge(v1, src, v2, dst, v3, state),
        }
    }

    fn estimate_traversal(&self, src: &Vertex, dst: &Vertex, state: &Vec<StateVar>) -> (r: Result<
        Vec<StateVar>,
        TraversalModelError,
    >) {
        match self {
            ComponentModel::Distance(m) => m.estimate_traversal(src, dst, state),
        }
    }

    fn serialize_state(&self, state: &Vec<StateVar>) -> (r: serde_json::Value) {
        match self {
            ComponentModel::Distance(m) => m.serialize_state(state),
        }
    }

    fn serialize_state_info(&self, state: &Vec<StateVar>) -> (r: serde_json::Value) {
        match self {
            ComponentModel::Distance(m) => m.serialize_state_info(state),
        }
    }
}

/// The concatenation of the components' dimension names, in registration
/// order.
pub open spec fn cat_names(cs: Seq<ComponentModel>) -> Seq<Seq<char>>
    decreases cs.len(),
{
    if cs.len() == 0 {
        Seq::empty()
    } else {
        cs[0].names_spec() + cat_names(cs.drop_first())
    }
}

/// The concatenation of the components' initial states, in registration
/// order.
pub open spec fn cat_initial(cs: Seq<ComponentModel>) -> Seq<StateVar>
    decreases cs.len(),
{
    if cs.len() == 0 {
        Seq::empty()
    } else {
        cs[0].initial_spec() + cat_initial(cs.drop_first())
    }
}

/// The sum of the components' initial-state lengths.
pub open spec fn sum_initial_lens(cs: Seq<ComponentModel>) -> int
    decreases cs.len(),
{
    if cs.len() == 0 {
        0
    } else {
        cs[0].initial_spec().len() + sum_initial_lens(cs.drop_first())
    }
}

/// The offset of component `k`'s slice in the composite state vector: the
/// sum of the initial-state lengths of the components before it.
pub open spec fn slice_offset(cs: Seq<ComponentModel>, k: int) -> int {
    sum_initial_lens(cs.take(k))
}

/// The state owed by dispatching `traverse` across `cs`, each component
/// restricted to its own slice of `state`, and the results reassembled in
/// order. The first component error aborts the edge.
pub open spec fn cat_traverse(
    cs: Seq<ComponentModel>,
    src: Vertex,
    edge: Edge,
    dst: Vertex,
    state: Seq<StateVar>,
) -> Result<Seq<StateVar>, TraversalModelError>
    decreases cs.len(),
{
    if cs.len() == 0 {
        Ok(Seq::empty())
    } else {
        let l0 = cs[0].initial_spec().len() as int;
        match cs[0].traverse_spec(src, edge, dst, state.subrange(0, l0)) {
            Ok(head) => match cat_traverse(
                cs.drop_first(),
                src,
                edge,
                dst,
                state.subrange(l0, state.len() as int),
            ) {
                Ok(tail) => Ok(head + tail),
                Err(e) => Err(e),
            },
            Err(e) => Err(e),
        }
    }
}

/// The state owed by dispatching `estimate` across `cs`, per slice.
pub open spec fn cat_estimate(
    cs: Seq<ComponentModel>,
    src: Vertex,
    dst: Vertex,
    state: Seq<StateVar>,
) -> Result<Seq<StateVar>, TraversalModelError>
    decreases cs.len(),
{
    if cs.len() == 0 {
        Ok(Seq::empty())
    } else {
        let l0 = cs[0].initial_spec().len() as int;
        match cs[0].estimate_spec(src, dst, state.subrange(0, l0)) {
            Ok(head) => match cat_estimate(
                cs.drop_first(),
                src,
                dst,
                state.subrange(l0, state.len() as int),
            ) {
                Ok(tail) => Ok(head + tail),
                Err(e) => Err(e),
            },
            Err(e) => Err(e),
        }
    }
}

/// The adjustment owed by dispatching `access` across `cs`, per slice. A
/// component answering `None` contributes its slice unchanged; the whole
/// result is `None` when every component answered `None`.
pub open spec fn cat_access(
    cs: Seq<ComponentModel>,
    v1: Vertex,
    src: Edge,
    v2: Vertex,
    dst: Edge,
    v3: Vertex,
    state: Seq<StateVar>,
) -> Result<Option<Seq<StateVar>>, TraversalModelError>
    decreases cs.len(),
{
    if cs.len() == 0 {
        Ok(None)
    } else {
        let l0 = cs[0].initial_spec().len() as int;
        let head_slice = state.subrange(0, l0);
        let rest = state.subrange(l0, state.len() as int);
        match cs[0].access_spec(v1, src, v2, dst, v3, head_slice) {
            Ok(opt_head) => match cat_access(cs.drop_first(), v1, src, v2, dst, v3, rest) {
                Ok(opt_tail) => if opt_head is None && opt_tail is None {
                    Ok(None)
                } else {
                    let head = if opt_head is Some {
                        opt_head.unwrap()
                    } else {
                        head_slice
                    };
                    let tail = if opt_tail is Some {
                        opt_tail.unwrap()
                    } else {
                        rest
                    };
                    Ok(Some(head + tail))
                },
                Err(e) => Err(e),
            },
            Err(e) => Err(e),
        }
    }
}

/// The namespaced summary fields of a composite: each component's summary
/// document under its namespace key, the state split per slice, in
/// registration order.
pub open spec fn cat_serialize(
    children: Seq<(String, ComponentModel)>,
    state: Seq<StateVar>,
) -> Seq<(Seq<char>, serde_json::Value)>
    decreases children.len(),
{
    if children.len() == 0 {
        Seq::empty()
    } else {
        let l0 = children[0].1.initial_spec().len() as int;
        seq![(children[0].0@, children[0].1.serialize_state_spec(state.subrange(0, l0)))]
            + cat_serialize(children.drop_first(), state.subrange(l0, state.len() as int))
    }
}

/// The namespaced metadata fields of a composite, split per slice.
pub open spec fn cat_serialize_info(
    children: Seq<(String, ComponentModel)>,
    state: Seq<StateVar>,
) -> Seq<(Seq<char>, serde_json::Value)>
    decreases children.len(),
{
    if children.len() == 0 {
        Seq::empty()
    } else {
        let l0 = children[0].1.initial_spec().len() as int;
        seq![(children[0].0@, children[0].1.serialize_state_info_spec(state.subrange(0, l0)))]
            + cat_serialize_info(children.drop_first(), state.subrange(l0, state.len() as int))
    }
}

/// A traversal model built by concatenating component models' state vectors
/// and dispatching every operation per slice. Offsets are fixed at
/// construction and never reordered, so state-variable indices stay stable
/// for the model's lifetime.
pub struct CompositeTraversalModel {
    /// The component models, each under the namespace key used for its part
    /// of serialized summaries.
    pub components: Vec<(String, ComponentModel)>,
}

impl CompositeTraversalModel {
    /// The component models in registration order.
    pub open spec fn models(&self) -> Seq<ComponentModel> {
        self.components@.map_values(|p: (String, ComponentModel)| p.1)
    }

    /// Builds a composite from components. Two components declaring the same
    /// state-variable name is a configuration error, reported as a
    /// `BuildError` at construction time.
    pub fn new(components: Vec<(String, ComponentModel)>) -> (r: Result<
        CompositeTraversalModel,
        TraversalModelError,
    >)
        ensures
            ({
                let names = cat_names(
                    components@.map_values(|p: (String, ComponentModel)| p.1),
                );
                if forall|i: int, j: int|
                    0 <= i < j < names.len() ==> names[i] != names[j] {
                    r matches Ok(m) && m.components@ == components@
                } else {
                    r == Err::<CompositeTraversalModel, TraversalModelError>(
                        TraversalModelError::BuildError,
                    )
                }
            }),
    {
        let names = collect_names(&components);
        let n = names.len();
        let mut i: usize = 0;
        while i < n
            invariant
                n == names@.len(),
                names@.map_values(|s: String| s@) == cat_names(
                    components@.map_values(|p: (String, ComponentModel)| p.1),
                ),
                forall|a: int, b: int|
                    0 <= a < b < names@.len() && a < i ==> names@[a]@ != names@[b]@,
            decreases n - i,
        {
            let mut j: usize = i + 1;
            while j < n
                invariant
                    i < n == names@.len(),
                    i + 1 <= j,
                    names@.map_values(|s: String| s@) == cat_names(
                        components@.map_values(|p: (String, ComponentModel)| p.1),
                    ),
                    forall|b: int| i < b < j ==> names@[i as int]@ != names@[b]@,
                decreases n - j,
            {
                if names[i] == names[j] {
                    proof {
                        let catn = cat_names(
                            components@.map_values(|p: (String, ComponentModel)| p.1),
                        );
                        assert(!(forall|a: int, b: int|
                            0 <= a < b < catn.len() ==> catn[a] != catn[b])) by {
                            assert(0 <= i < j < catn.len());
                            assert(catn[i as int] == catn[j as int]);
                        }
                    }
                    return Err(TraversalModelError::BuildError);
                }
                j = j + 1;
            }
            i = i + 1;
        }
        proof {
            let views = names@.map_values(|s: String| s@);
            assert(forall|a: int, b: int|
                0 <= a < b < views.len() ==> views[a] != views[b]);
        }
        Ok(CompositeTraversalModel { components })
    }
}

/// Collects the names declared by every component, concatenated in
/// registration order.
fn collect_names(components: &Vec<(String, ComponentModel)>) -> (r: Vec<String>)
    ensures
        r@.map_values(|s: String| s@) == cat_names(
            components@.map_values(|p: (String, ComponentModel)| p.1),
        ),
{
    let ghost models = components@.map_values(|p: (String, ComponentModel)| p.1);
    let mut names: Vec<String> = Vec::new();
    proof {
        assert(models.skip(0) =~= models);
        assert(names@.map_values(|s: String| s@) + cat_names(models) =~= cat_names(models));
    }
    let mut k: usize = 0;
    while k < components.len()
        invariant
            k <= components@.len(),
            models == components@.map_values(|p: (String, ComponentModel)| p.1),
            cat_names(models) == names@.map_values(|s: String| s@) + cat_names(
                models.skip(k as int),
            ),
        decreases components@.len() - k,
    {
        let child_names = components[k].1.state_variable_names();
        proof {
            lemma_cat_names_step(models, k as int);
        }
        let mut c: usize = 0;
        let ghost names_before = names@;
        while c < child_names.len()
            invariant
                c <= child_names@.len(),
                names@ == names_before + child_names@.take(c as int),
            decreases child_names@.len() - c,
        {
            names.push(child_names[c].clone());
            proof {
                assert(names@ =~= names_before + child_names@.take(c + 1));
            }
            c = c + 1;
        }
        proof {
            assert(child_names@.take(child_names@.len() as int) =~= child_names@);
            assert(names@.map_values(|s: String| s@) =~= names_before.map_values(|s: String| s@)
                + child_names@.map_values(|s: String| s@));
            assert(cat_names(models) =~= names@.map_values(|s: String| s@) + cat_names(
                models.skip(k + 1),
            ));
        }
        k = k + 1;
    }
    proof {
        assert(models.skip(k as int) =~= Seq::<ComponentModel>::empty());
        assert(cat_names(models) =~= names@.map_values(|s: String| s@));
    }
    names
}

/// Unfolds one step of the name concatenation: the names of the components
/// from `k` on are the `k`-th component's names followed by the rest.
pub proof fn lemma_cat_names_step(cs: Seq<ComponentModel>, k: int)
    requires
        0 <= k < cs.len(),
    ensures
        cat_names(cs.skip(k)) == cs[k].names_spec() + cat_names(cs.skip(k + 1)),
{
    assert(cs.skip(k).len() > 0);
    assert(cs.skip(k)[0] == cs[k]);
    assert(cs.skip(k).drop_first() =~= cs.skip(k + 1));
}

/// Unfolds one step of the initial-state concatenation and of the length
/// sum, from component `k` on.
pub proof fn lemma_cat_step(cs: Seq<ComponentModel>, k: int)
    requires
        0 <= k < cs.len(),
    ensures
        cat_initial(cs.skip(k)) == cs[k].initial_spec() + cat_initial(cs.skip(k + 1)),
        sum_initial_lens(cs.skip(k)) == cs[k].initial_spec().len() + sum_initial_lens(
            cs.skip(k + 1),
        ),
{
    assert(cs.skip(k).len() > 0);
    assert(cs.skip(k)[0] == cs[k]);
    assert(cs.skip(k).drop_first() =~= cs.skip(k + 1));
}

/// The sum of initial-state lengths is never negative.
pub proof fn lemma_sum_nonneg(cs: Seq<ComponentModel>)
    ensures
        sum_initial_lens(cs) >= 0,
    decreases cs.len(),
{
    if cs.len() > 0 {
        lemma_sum_nonneg(cs.drop_first());
    }
}

/// Appending one component adds its initial-state length to the sum.
pub proof fn lemma_sum_push(cs: Seq<ComponentModel>, c: ComponentModel)
    ensures
        sum_initial_lens(cs.push(c)) == sum_initial_lens(cs) + c.initial_spec().len(),
    decreases cs.len(),
{
    assert(cs.push(c).len() == cs.len() + 1);
    if cs.len() == 0 {
        assert(cs.push(c)[0] == c);
        assert(cs.push(c).drop_first() =~= Seq::<ComponentModel>::empty());
        assert(sum_initial_lens(cs.push(c)) == c.initial_spec().len() + sum_initial_lens(
            cs.push(c).drop_first(),
        ));
        assert(sum_initial_lens(Seq::<ComponentModel>::empty()) == 0);
    } else {
        assert(cs.push(c)[0] == cs[0]);
        assert(cs.push(c).drop_first() =~= cs.drop_first().push(c));
        assert(sum_initial_lens(cs.push(c)) == cs[0].initial_spec().len() + sum_initial_lens(
            cs.drop_first().push(c),
        ));
        lemma_sum_push(cs.drop_first(), c);
    }
}

/// Extends the processed prefix by one component: the offset of component
/// `k + 1` is the offset of component `k` plus its length.
pub proof fn lemma_offset_step(cs: Seq<ComponentModel>, k: int)
    requires
        0 <= k < cs.len(),
    ensures
        slice_offset(cs, k + 1) == slice_offset(cs, k) + cs[k].initial_spec().len(),
{
    assert(cs.take(k + 1) =~= cs.take(k).push(cs[k]));
    lemma_sum_push(cs.take(k), cs[k]);
}

/// The whole sum splits at any point into the processed prefix and the rest.
pub proof fn lemma_sum_split(cs: Seq<ComponentModel>, k: int)
    requires
        0 <= k <= cs.len(),
    ensures
        sum_initial_lens(cs) == slice_offset(cs, k) + sum_initial_lens(cs.skip(k)),
    decreases k,
{
    if k == 0 {
        assert(cs.take(0) =~= Seq::<ComponentModel>::empty());
        assert(cs.skip(0) =~= cs);
    } else {
        lemma_sum_split(cs, k - 1);
        lemma_offset_step(cs, k - 1);
        lemma_cat_step(cs, k - 1);
    }
}

/// The concatenated names, the concatenated initial state, and the length
/// sum agree: one name per dimension.
pub proof fn lemma_cat_lens(cs: Seq<ComponentModel>)
    ensures
        cat_names(cs).len() == cat_initial(cs).len(),
        cat_initial(cs).len() == sum_initial_lens(cs),
    decreases cs.len(),
{
    if cs.len() > 0 {
        cs[0].wf_properties();
        lemma_cat_lens(cs.drop_first());
    }
}

/// A name found in a sequence of names sits inside it and matches the key.
pub proof fn lemma_find_name_bounds(names: Seq<Seq<char>>, key: Seq<char>)
    ensures
        find_name(names, key) matches Some(i) ==> 0 <= i < names.len() && names[i] == key,
    decreases names.len(),
{
    if names.len() > 0 {
        lemma_find_name_bounds(names.drop_first(), key);
    }
}

/// Looking a key up in concatenated names finds it in the first part, or in
/// the second shifted by the first part's length.
pub proof fn lemma_find_name_concat(a: Seq<Seq<char>>, b: Seq<Seq<char>>, key: Seq<char>)
    ensures
        find_name(a + b, key) == (match find_name(a, key) {
            Some(i) => Some(i),
            None => match find_name(b, key) {
                Some(i) => Some(i + a.len()),
                None => None::<int>,
            },
        }),
    decreases a.len(),
{
    if a.len() == 0 {
        assert(a + b =~= b);
    } else {
        assert((a + b).len() > 0);
        assert((a + b)[0] == a[0]);
        assert((a + b).drop_first() =~= a.drop_first() + b);
        lemma_find_name_concat(a.drop_first(), b, key);
    }
}

/// A successful dispatched traversal preserves the total state length.
pub proof fn lemma_cat_traverse_len(
    cs: Seq<ComponentModel>,
    src: Vertex,
    edge: Edge,
    dst: Vertex,
    state: Seq<StateVar>,
)
    requires
        state.len() == sum_initial_lens(cs),
    ensures
        cat_traverse(cs, src, edge, dst, state) matches Ok(ns) ==> ns.len() == state.len(),
    decreases cs.len(),
{
    if cs.len() > 0 {
        let l0 = cs[0].initial_spec().len() as int;
        lemma_sum_nonneg(cs.drop_first());
        cs[0].traverse_preserves_len(src, edge, dst, state.subrange(0, l0));
        lemma_cat_traverse_len(cs.drop_first(), src, edge, dst, state.subrange(l0, state.len() as int));
    }
}

/// A successful dispatched estimate preserves the total state length.
pub proof fn lemma_cat_estimate_len(
    cs: Seq<ComponentModel>,
    src: Vertex,
    dst: Vertex,
    state: Seq<StateVar>,
)
    requires
        state.len() == sum_initial_lens(cs),
    ensures
        cat_estimate(cs, src, dst, state) matches Ok(ns) ==> ns.len() == state.len(),
    decreases cs.len(),
{
    if cs.len() > 0 {
        let l0 = cs[0].initial_spec().len() as int;
        lemma_sum_nonneg(cs.drop_first());
        cs[0].estimate_preserves_len(src, dst, state.subrange(0, l0));
        lemma_cat_estimate_len(cs.drop_first(), src, dst, state.subrange(l0, state.len() as int));
    }
}

/// A successful dispatched access adjustment preserves the total state
/// length.
pub proof fn lemma_cat_access_len(
    cs: Seq<ComponentModel>,
    v1: Vertex,
    src: Edge,
    v2: Vertex,
    dst: Edge,
    v3: Vertex,
    state: Seq<StateVar>,
)
    requires
        state.len() == sum_initial_lens(cs),
    ensures
        cat_access(cs, v1, src, v2, dst, v3, state) matches Ok(Some(ns)) ==> ns.len()
            == state.len(),
    decreases cs.len(),
{
    if cs.len() > 0 {
        let l0 = cs[0].initial_spec().len() as int;
        lemma_sum_nonneg(cs.drop_first());
        cs[0].access_preserves_len(v1, src, v2, dst, v3, state.subrange(0, l0));
        lemma_cat_access_len(
            cs.drop_first(),
            v1,
            src,
            v2,
            dst,
            v3,
            state.subrange(l0, state.len() as int),
        );
    }
}

impl TraversalModel for CompositeTraversalModel {
    open spec fn names_spec(&self) -> Seq<Seq<char>> {
        cat_names(self.models())
    }

    open spec fn initial_spec(&self) -> Seq<StateVar> {
        cat_initial(self.models())
    }

    open spec fn traverse_spec(
        &self,
        src: Vertex,
        edge: Edge,
        dst: Vertex,
        state: Seq<StateVar>,
    ) -> Result<Seq<StateVar>, TraversalModelError> {
        if state.len() == sum_initial_lens(self.models()) {
            cat_traverse(self.models(), src, edge, dst, state)
        } else {
            Err(TraversalModelError::InternalError)
        }
    }

    open spec fn access_spec(
        &self,
        v1: Vertex,
        src: Edge,
        v2: Vertex,
        dst: Edge,
        v3: Vertex,
        state: Seq<StateVar>,
    ) -> Result<Option<Seq<StateVar>>, TraversalModelError> {
        if state.len() == sum_initial_lens(self.models()) {
            cat_access(self.models(), v1, src, v2, dst, v3, state)
        } else {
            Err(TraversalModelError::InternalError)
        }
    }

    open spec fn estimate_spec(&self, src: Vertex, dst: Vertex, state: Seq<StateVar>) -> Result<
        Seq<StateVar>,
        TraversalModelError,
    > {
        if state.len() == sum_initial_lens(self.models()) {
            cat_estimate(self.models(), src, dst, state)
        } else {
            Err(TraversalModelError::InternalError)
        }
    }

    open spec fn serialize_state_spec(&self, state: Seq<StateVar>) -> serde_json::Value {
        object_of(cat_serialize(self.components@, state))
    }

    open spec fn serialize_state_info_spec(&self, state: Seq<StateVar>) -> serde_json::Value {
        object_of(cat_serialize_info(self.components@, state))
    }

    proof fn wf_properties(&self) {
        lemma_cat_lens(self.models());
    }

    proof fn traverse_preserves_len(
        &self,
        src: Vertex,
        edge: Edge,
        dst: Vertex,
        state: Seq<StateVar>,
    ) {
        if state.len() == sum_initial_lens(self.models()) {
            lemma_cat_traverse_len(self.models(), src, edge, dst, state);
        }
    }

    proof fn access_preserves_len(
        &self,
        v1: Vertex,
        src: Edge,
        v2: Vertex,
        dst: Edge,
        v3: Vertex,
        state: Seq<StateVar>,
    ) {
        if state.len() == sum_initial_lens(self.models()) {
            lemma_cat_access_len(self.models(), v1, src, v2, dst, v3, state);
        }
    }

    proof fn estimate_preserves_len(&self, src: Vertex, dst: Vertex, state: Seq<StateVar>) {
        if state.len() == sum_initial_lens(self.models()) {
            lemma_cat_estimate_len(self.models(), src, dst, state);
        }
    }

    fn state_variable_names(&self) -> (r: Vec<String>) {
        collect_names(&self.components)
    }

    fn initial_state(&self) -> (r: Vec<StateVar>) {
        let ghost models = self.models();
        let mut state: Vec<StateVar> = Vec::new();
        proof {
            assert(models.skip(0) =~= models);
            assert(state@ + cat_initial(models) =~= cat_initial(models));
        }
        let mut k: usize = 0;
        while k < self.components.len()
            invariant
                k <= self.components@.len(),
                models == self.models(),
                cat_initial(models) == state@ + cat_initial(models.skip(k as int)),
            decreases self.components@.len() - k,
        {
            let child_initial = self.components[k].1.initial_state();
            proof {
                lemma_cat_step(models, k as int);
                assert(models[k as int] == self.components@[k as int].1);
            }
            append_states(&mut state, &child_initial);
            proof {
                assert(state@ + cat_initial(models.skip(k + 1)) =~= cat_initial(models));
            }
            k = k + 1;
        }
        proof {
            assert(models.skip(k as int) =~= Seq::<ComponentModel>::empty());
            assert(state@ =~= cat_initial(models));
        }
        state
    }

    fn get_state_variable(&self, key: &str, state: &Vec<StateVar>) -> (r: Result<
        StateVar,
        TraversalModelError,
    >) {
        let ghost models = self.models();
        proof {
            assert(models.skip(0) =~= models);
            assert(models.take(0) =~= Seq::<ComponentModel>::empty());
        }
        let mut offset: usize = 0;
        let mut k: usize = 0;
        while k < self.components.len()
            invariant
                k <= self.components@.len(),
                models == self.models(),
                offset == slice_offset(models, k as int),
                offset <= state@.len(),
                find_name(cat_names(models), key@) == (match find_name(
                    cat_names(models.skip(k as int)),
                    key@,
                ) {
                    Some(i) => Some(i + offset),
                    None => None::<int>,
                }),
            decreases self.components@.len() - k,
        {
            let child = &self.components[k].1;
            let child_initial = child.initial_state();
            let child_len = child_initial.len();
            proof {
                assert(models[k as int] == self.components@[k as int].1);
                assert(models.skip(k as int)[0] == models[k as int]);
                assert(models.skip(k as int).drop_first() =~= models.skip(k + 1));
                lemma_offset_step(models, k as int);
                child.wf_properties();
                lemma_cat_names_step(models, k as int);
                lemma_find_name_concat(child.names_spec(), cat_names(models.skip(k + 1)), key@);
                lemma_find_name_bounds(child.names_spec(), key@);
                lemma_find_name_bounds(cat_names(models.skip(k + 1)), key@);
            }
            if child_len <= state.len() - offset {
                let slice = copy_slice(state, offset, offset + child_len);
                match child.get_state_variable(key, &slice) {
                    Ok(v) => {
                        proof {
                            let fo = find_name(child.names_spec(), key@);
                            assert(fo is Some);
                            let i = fo.unwrap();
                            assert(0 <= i < slice@.len());
                            assert(v == slice@[i]);
                            assert(find_name(cat_names(models.skip(k as int)), key@) == Some(i));
                            assert(find_name(cat_names(models), key@) == Some(i + offset));
                            assert(state@[i + offset] == slice@[i]);
                        }
                        return Ok(v);
                    },
                    Err(_) => {
                        proof {
                            assert(find_name(child.names_spec(), key@) is None);
                            assert(child.names_spec().len() == child_len);
                        }
                    },
                }
                offset = offset + child_len;
                k = k + 1;
            } else {
                // The state ends inside this component's slice. A key found
                // within what is left of the state is still answered; any
                // other lookup points past the state's end, a structural
                // error.
                let slice = copy_slice(state, offset, state.len());
                match child.get_state_variable(key, &slice) {
                    Ok(v) => {
                        proof {
                            let fo = find_name(child.names_spec(), key@);
                            assert(fo is Some);
                            let i = fo.unwrap();
                            assert(0 <= i < slice@.len());
                            assert(v == slice@[i]);
                            assert(find_name(cat_names(models.skip(k as int)), key@) == Some(i));
                            assert(find_name(cat_names(models), key@) == Some(i + offset));
                            assert(state@[i + offset] == slice@[i]);
                        }
                        return Ok(v);
                    },
                    Err(_) => {
                        proof {
                            assert(child.names_spec().len() == child_len);
                            assert(slice@.len() == state@.len() - offset);
                        }
                        return Err(TraversalModelError::InternalError);
                    },
                }
            }
        }
        proof {
            assert(models.skip(k as int) =~= Seq::<ComponentModel>::empty());
            assert(find_name(cat_names(models), key@) is None);
        }
        Err(TraversalModelError::InternalError)
    }

    fn traverse_edge(&self, src: &Vertex, edge: &Edge, dst: &Vertex, state: &Vec<StateVar>) -> (r:
        Result<Vec<StateVar>, TraversalModelError>) {
        let ghost models = self.models();
        proof {
            lemma_cat_lens(models);
            assert(models.skip(0) =~= models);
            assert(models.take(0) =~= Seq::<ComponentModel>::empty());
            assert(state@.subrange(0, state@.len() as int) =~= state@);
        }
        let mut acc: Vec<StateVar> = Vec::new();
        let mut offset: usize = 0;
        let mut k: usize = 0;
        while k < self.components.len()
            invariant
                k <= self.components@.len(),
                models == self.models(),
                src.coordinate.is_valid(),
                dst.coordinate.is_valid(),
                state@.len() == sum_initial_lens(models),
                offset == slice_offset(models, k as int),
                offset <= state@.len(),
                acc@.len() == offset,
                cat_traverse(models, *src, *edge, *dst, state@) == (match cat_traverse(
                    models.skip(k as int),
                    *src,
                    *edge,
                    *dst,
                    state@.subrange(offset as int, state@.len() as int),
                ) {
                    Ok(tail) => Ok::<Seq<StateVar>, TraversalModelError>(acc@ + tail),
                    Err(e) => Err(e),
                }),
            decreases self.components@.len() - k,
        {
            let total: usize = state.len();
            let child = &self.components[k].1;
            let child_initial = child.initial_state();
            let child_len = child_initial.len();
            proof {
                assert(models[k as int] == self.components@[k as int].1);
                assert(models.skip(k as int)[0] == models[k as int]);
                assert(models.skip(k as int).drop_first() =~= models.skip(k + 1));
                lemma_cat_step(models, k as int);
                lemma_sum_split(models, k as int);
                lemma_sum_nonneg(models.skip(k + 1));
                lemma_offset_step(models, k as int);
                assert(offset + child_len <= total);
            }
            let slice = copy_slice(state, offset, offset + child_len);
            let ghost rest = state@.subrange(offset as int, state@.len() as int);
            proof {
                assert(rest.subrange(0, child_len as int) =~= slice@);
                assert(rest.subrange(child_len as int, rest.len() as int) =~= state@.subrange(
                    offset + child_len,
                    state@.len() as int,
                ));
            }
            match child.traverse_edge(src, edge, dst, &slice) {
                Ok(next_slice) => {
                    proof {
                        child.traverse_preserves_len(*src, *edge, *dst, slice@);
                    }
                    let ghost acc_before = acc@;
                    append_states(&mut acc, &next_slice);
                    proof {
                        assert(forall|t: Seq<StateVar>| #![auto]
                            (acc_before + (next_slice@ + t)) =~= (acc@ + t));
                    }
                    offset = offset + child_len;
                },
                Err(e) => {
                    return Err(e);
                },
            }
            k = k + 1;
        }
        proof {
            assert(models.skip(k as int) =~= Seq::<ComponentModel>::empty());
            assert(state@.subrange(offset as int, state@.len() as int)
                =~= Seq::<StateVar>::empty());
            assert(acc@ + Seq::<StateVar>::empty() =~= acc@);
        }
        Ok(acc)
    }

    fn access_edge(
        &self,
        v1: &Vertex,
        src: &Edge,
        v2: &Vertex,
        dst: &Edge,
        v3: &Vertex,
        state: &Vec<StateVar>,
    ) -> (r: Result<Option<Vec<StateVar>>, TraversalModelError>) {
        let ghost models = self.models();
        proof {
            lemma_cat_lens(models);
            assert(models.skip(0) =~= models);
            assert(models.take(0) =~= Seq::<ComponentModel>::empty());
            assert(state@.subrange(0, state@.len() as int) =~= state@);
        }
        let mut acc: Vec<StateVar> = Vec::new();
        let mut changed: bool = false;
        let mut offset: usize = 0;
        let mut k: usize = 0;
        while k < self.components.len()
            invariant
                k <= self.components@.len(),
                models == self.models(),
                state@.len() == sum_initial_lens(models),
                offset == slice_offset(models, k as int),
                offset <= state@.len(),
                acc@.len() == offset,
                cat_access(models, *v1, *src, *v2, *dst, *v3, state@) == (match cat_access(
                    models.skip(k as int),
                    *v1,
                    *src,
                    *v2,
                    *dst,
                    *v3,
                    state@.subrange(offset as int, state@.len() as int),
                ) {
                    Ok(opt_tail) => match opt_tail {
                        Some(tail) => Ok::<Option<Seq<StateVar>>, TraversalModelError>(
                            Some(acc@ + tail),
                        ),
                        None => if changed {
                            Ok(Some(acc@ + state@.subrange(offset as int, state@.len() as int)))
                        } else {
                            Ok(None)
                        },
                    },
                    Err(e) => Err(e),
                }),
            decreases self.components@.len() - k,
        {
            let total: usize = state.len();
            let child = &self.components[k].1;
            let child_initial = child.initial_state();
            let child_len = child_initial.len();
            proof {
                assert(models[k as int] == self.components@[k as int].1);
                assert(models.skip(k as int)[0] == models[k as int]);
                assert(models.skip(k as int).drop_first() =~= models.skip(k + 1));
                lemma_cat_step(models, k as int);
                lemma_sum_split(models, k as int);
                lemma_sum_nonneg(models.skip(k + 1));
                lemma_offset_step(models, k as int);
                assert(offset + child_len <= total);
            }
            let slice = copy_slice(state, offset, offset + child_len);
            let ghost rest = state@.subrange(offset as int, state@.len() as int);
            proof {
                assert(rest.subrange(0, child_len as int) =~= slice@);
                assert(rest.subrange(child_len as int, rest.len() as int) =~= state@.subrange(
                    offset + child_len,
                    state@.len() as int,
                ));
            }
            proof {
                assert(rest =~= rest.subrange(0, child_len as int) + rest.subrange(
                    child_len as int,
                    rest.len() as int,
                ));
            }
            match child.access_edge(v1, src, v2, dst, v3, &slice) {
                Ok(opt_slice) => {
                    match opt_slice {
                        Some(next_slice) => {
                            proof {
                                child.access_preserves_len(*v1, *src, *v2, *dst, *v3, slice@);
                            }
                            append_states(&mut acc, &next_slice);
                            changed = true;
                        },
                        None => {
                            append_states(&mut acc, &slice);
                        },
                    }
                    proof {
                        assert(forall|a: Seq<StateVar>, b: Seq<StateVar>, t: Seq<StateVar>|
                            ((a + b) + t) =~= (a + (b + t)));
                    }
                    offset = offset + child_len;
                },
                Err(e) => {
                    return Err(e);
                },
            }
            k = k + 1;
        }
        proof {
            assert(models.skip(k as int) =~= Seq::<ComponentModel>::empty());
            assert(state@.subrange(offset as int, state@.len() as int)
                =~= Seq::<StateVar>::empty());
            assert(acc@ + Seq::<StateVar>::empty() =~= acc@);
        }
        if changed {
            Ok(Some(acc))
        } else {
            Ok(None)
        }
    }

    fn estimate_traversal(&self, src: &Vertex, dst: &Vertex, state: &Vec<StateVar>) -> (r: Result<
        Vec<StateVar>,
        TraversalModelError,
    >) {
        let ghost models = self.models();
        proof {
            lemma_cat_lens(models);
            assert(models.skip(0) =~= models);
            assert(models.take(0) =~= Seq::<ComponentModel>::empty());
            assert(state@.subrange(0, state@.len() as int) =~= state@);
        }
        let mut acc: Vec<StateVar> = Vec::new();
        let mut offset: usize = 0;
        let mut k: usize = 0;
        while k < self.components.len()
            invariant
                k <= self.components@.len(),
                models == self.models(),
                src.coordinate.is_valid(),
                dst.coordinate.is_valid(),
                state@.len() == sum_initial_lens(models),
                offset == slice_offset(models, k as int),
                offset <= state@.len(),
                acc@.len() == offset,
                cat_estimate(models, *src, *dst, state@) == (match cat_estimate(
                    models.skip(k as int),
                    *src,
                    *dst,
                    state@.subrange(offset as int, state@.len() as int),
                ) {
                    Ok(tail) => Ok::<Seq<StateVar>, TraversalModelError>(acc@ + tail),
                    Err(e) => Err(e),
                }),
            decreases self.components@.len() - k,
        {
            let total: usize = state.len();
            let child = &self.components[k].1;
            let child_initial = child.initial_state();
            let child_len = child_initial.len();
            proof {
                assert(models[k as int] == self.components@[k as int].1);
                assert(models.skip(k as int)[0] == models[k as int]);
                assert(models.skip(k as int).drop_first() =~= models.skip(k + 1));
                lemma_cat_step(models, k as int);
                lemma_sum_split(models, k as int);
                lemma_sum_nonneg(models.skip(k + 1));
                lemma_offset_step(models, k as int);
                assert(offset + child_len <= total);
            }
            let slice = copy_slice(state, offset, offset + child_len);
            let ghost rest = state@.subrange(offset as int, state@.len() as int);
            proof {
                assert(rest.subrange(0, child_len as int) =~= slice@);
                assert(rest.subrange(child_len as int, rest.len() as int) =~= state@.subrange(
                    offset + child_len,
                    state@.len() as int,
                ));
            }
            match child.estimate_traversal(src, dst, &slice) {
                Ok(next_slice) => {
                    proof {
                        child.estimate_preserves_len(*src, *dst, slice@);
                    }
                    let ghost acc_before = acc@;
                    append_states(&mut acc, &next_slice);
                    proof {
                        assert(forall|t: Seq<StateVar>| #![auto]
                            (acc_before + (next_slice@ + t)) =~= (acc@ + t));
                    }
                    offset = offset + child_len;
                },
                Err(e) => {
                    return Err(e);
                },
            }
            k = k + 1;
        }
        proof {
            assert(models.skip(k as int) =~= Seq::<ComponentModel>::empty());
            assert(state@.subrange(offset as int, state@.len() as int)
                =~= Seq::<StateVar>::empty());
            assert(acc@ + Seq::<StateVar>::empty() =~= acc@);
        }
        Ok(acc)
    }

    fn serialize_state(&self, state: &Vec<StateVar>) -> (r: serde_json::Value) {
        let mut entries: Vec<(String, serde_json::Value)> = Vec::new();
        let ghost models = self.models();
        proof {
            lemma_cat_lens(models);
            assert(models.take(0) =~= Seq::<ComponentModel>::empty());
            assert(self.components@.skip(0) =~= self.components@);
            assert(state@.subrange(0, state@.len() as int) =~= state@);
            assert(fields_view(entries@) + cat_serialize(self.components@, state@)
                =~= cat_serialize(self.components@, state@));
        }
        let mut offset: usize = 0;
        let mut k: usize = 0;
        while k < self.components.len()
            invariant
                k <= self.components@.len(),
                models == self.models(),
                state@.len() == sum_initial_lens(models),
                offset == slice_offset(models, k as int),
                offset <= state@.len(),
                cat_serialize(self.components@, state@) == fields_view(entries@)
                    + cat_serialize(
                    self.components@.skip(k as int),
                    state@.subrange(offset as int, state@.len() as int),
                ),
            decreases self.components@.len() - k,
        {
            let total: usize = state.len();
            let child = &self.components[k].1;
            let child_initial = child.initial_state();
            let child_len = child_initial.len();
            proof {
                assert(models[k as int] == self.components@[k as int].1);
                assert(models.skip(k as int)[0] == models[k as int]);
                assert(models.skip(k as int).drop_first() =~= models.skip(k + 1));
                assert(self.components@.skip(k as int)[0] == self.components@[k as int]);
                assert(self.components@.skip(k as int).drop_first() =~= self.components@.skip(
                    k + 1,
                ));
                lemma_cat_step(models, k as int);
                lemma_sum_split(models, k as int);
                lemma_sum_nonneg(models.skip(k + 1));
                lemma_offset_step(models, k as int);
                assert(offset + child_len <= total);
            }
            let slice = copy_slice(state, offset, offset + child_len);
            let ghost rest = state@.subrange(offset as int, state@.len() as int);
            proof {
                assert(rest.subrange(0, child_len as int) =~= slice@);
                assert(rest.subrange(child_len as int, rest.len() as int) =~= state@.subrange(
                    offset + child_len,
                    state@.len() as int,
                ));
            }
            let doc = child.serialize_state(&slice);
            let ghost entries_before = entries@;
            entries.push((self.components[k].0.clone(), doc));
            proof {
                let head = (self.components@[k as int].0@, doc);
                assert(fields_view(entries@) =~= fields_view(entries_before).push(head));
                assert(fields_view(entries_before) + (seq![head] + cat_serialize(
                    self.components@.skip(k + 1),
                    rest.subrange(child_len as int, rest.len() as int),
                )) =~= fields_view(entries@) + cat_serialize(
                    self.components@.skip(k + 1),
                    rest.subrange(child_len as int, rest.len() as int),
                ));
            }
            offset = offset + child_len;
            k = k + 1;
        }
        proof {
            assert(self.components@.skip(k as int)
                =~= Seq::<(String, ComponentModel)>::empty());
            assert(models.skip(k as int) =~= Seq::<ComponentModel>::empty());
            lemma_sum_split(models, k as int);
            assert(state@.subrange(offset as int, state@.len() as int)
                =~= Seq::<StateVar>::empty());
            assert(fields_view(entries@) + cat_serialize(
                self.components@.skip(k as int),
                state@.subrange(offset as int, state@.len() as int),
            ) =~= fields_view(entries@));
        }
        json_object_from_entries(entries)
    }

    fn serialize_state_info(&self, state: &Vec<StateVar>) -> (r: serde_json::Value) {
        let mut entries: Vec<(String, serde_json::Value)> = Vec::new();
        let ghost models = self.models();
        proof {
            lemma_cat_lens(models);
            assert(models.take(0) =~= Seq::<ComponentModel>::empty());
            assert(self.components@.skip(0) =~= self.components@);
            assert(state@.subrange(0, state@.len() as int) =~= state@);
            assert(fields_view(entries@) + cat_serialize_info(self.components@, state@)
                =~= cat_serialize_info(self.components@, state@));
        }
        let mut offset: usize = 0;
        let mut k: usize = 0;
        while k < self.components.len()
            invariant
                k <= self.components@.len(),
                models == self.models(),
                state@.len() == sum_initial_lens(models),
                offset == slice_offset(models, k as int),
                offset <= state@.len(),
                cat_serialize_info(self.components@, state@) == fields_view(entries@)
                    + cat_serialize_info(
                    self.components@.skip(k as int),
                    state@.subrange(offset as int, state@.len() as int),
                ),
            decreases self.components@.len() - k,
        {
            let total: usize = state.len();
            let child = &self.components[k].1;
            let child_initial = child.initial_state();
            let child_len = child_initial.len();
            proof {
                assert(models[k as int] == self.components@[k as int].1);
                assert(models.skip(k as int)[0] == models[k as int]);
                assert(models.skip(k as int).drop_first() =~= models.skip(k + 1));
                assert(self.components@.skip(k as int)[0] == self.components@[k as int]);
                assert(self.components@.skip(k as int).drop_first() =~= self.components@.skip(
                    k + 1,
                ));
                lemma_cat_step(models, k as int);
                lemma_sum_split(models, k as int);
                lemma_sum_nonneg(models.skip(k + 1));
                lemma_offset_step(models, k as int);
                assert(offset + child_len <= total);
            }
            let slice = copy_slice(state, offset, offset + child_len);
            let ghost rest = state@.subrange(offset as int, state@.len() as int);
            proof {
                assert(rest.subrange(0, child_len as int) =~= slice@);
                assert(rest.subrange(child_len as int, rest.len() as int) =~= state@.subrange(
                    offset + child_len,
                    state@.len() as int,
                ));
            }
            let doc = child.serialize_state_info(&slice);
            let ghost entries_before = entries@;
            entries.push((self.components[k].0.clone(), doc));
            proof {
                let head = (self.components@[k as int].0@, doc);
                assert(fields_view(entries@) =~= fields_view(entries_before).push(head));
                assert(fields_view(entries_before) + (seq![head] + cat_serialize_info(
                    self.components@.skip(k + 1),
                    rest.subrange(child_len as int, rest.len() as int),
                )) =~= fields_view(entries@) + cat_serialize_info(
                    self.components@.skip(k + 1),
                    rest.subrange(child_len as int, rest.len() as int),
                ));
            }
            offset = offset + child_len;
            k = k + 1;
        }
        proof {
            assert(self.components@.skip(k as int)
                =~= Seq::<(String, ComponentModel)>::empty());
            assert(models.skip(k as int) =~= Seq::<ComponentModel>::empty());
            lemma_sum_split(models, k as int);
            assert(state@.subrange(offset as int, state@.len() as int)
                =~= Seq::<StateVar>::empty());
            assert(fields_view(entries@) + cat_serialize_info(
                self.components@.skip(k as int),
                state@.subrange(offset as int, state@.len() as int),
            ) =~= fields_view(entries@));
        }
        json_object_from_entries(entries)
    }
}

/// A key owned by component `k`, and by no component before it, is found in
/// the concatenated names at component `k`'s offset plus its index inside
/// component `k`.
pub proof fn lemma_find_in_cat(cs: Seq<ComponentModel>, k: int, key: Seq<char>)
    requires
        0 <= k < cs.len(),
        find_name(cs[k].names_spec(), key) is Some,
        forall|j: int| 0 <= j < k ==> find_name(cs[j].names_spec(), key) is None,
    ensures
        find_name(cat_names(cs), key) == Some(
            slice_offset(cs, k) + find_name(cs[k].names_spec(), key).unwrap(),
        ),
    decreases k,
{
    lemma_find_name_concat(cs[0].names_spec(), cat_names(cs.drop_first()), key);
    if k == 0 {
        assert(cs.take(0) =~= Seq::<ComponentModel>::empty());
    } else {
        assert(cs.drop_first()[k - 1] == cs[k]);
        assert(forall|j: int|
            0 <= j < k - 1 ==> cs.drop_first()[j] == cs[j + 1]);
        lemma_find_in_cat(cs.drop_first(), k - 1, key);
        cs[0].wf_properties();
        assert(cs.take(k).len() > 0);
        assert(cs.take(k)[0] == cs[0]);
        assert(cs.take(k).drop_first() =~= cs.drop_first().take(k - 1));
    }
}

/// The composition law of the state-vector protocol. For any composite model
/// built from components with initial-state lengths `l1, ..., ln`, the
/// initial state is their concatenation, so its length is `l1 + ... + ln`;
/// and a state variable owned by component `k` (and by no component before
/// it) reads the same value through the composite as through component `k`
/// directly on its own slice of the state vector.
pub proof fn lemma_composite_state_protocol(
    m: CompositeTraversalModel,
    k: int,
    key: Seq<char>,
    state: Seq<StateVar>,
)
    requires
        0 <= k < m.models().len(),
        state.len() == m.initial_spec().len(),
        find_name(m.models()[k].names_spec(), key) is Some,
        forall|j: int| 0 <= j < k ==> find_name(m.models()[j].names_spec(), key) is None,
    ensures
        m.initial_spec().len() == sum_initial_lens(m.models()),
        get_variable_spec(m.names_spec(), key, state) == get_variable_spec(
            m.models()[k].names_spec(),
            key,
            state.subrange(
                slice_offset(m.models(), k),
                slice_offset(m.models(), k) + m.models()[k].initial_spec().len(),
            ),
        ),
{
    let cs = m.models();
    let off = slice_offset(cs, k);
    let len_k = cs[k].initial_spec().len() as int;
    lemma_cat_lens(cs);
    lemma_find_in_cat(cs, k, key);
    lemma_find_name_bounds(cs[k].names_spec(), key);
    cs[k].wf_properties();
    lemma_sum_split(cs, k);
    lemma_cat_step(cs, k);
    lemma_sum_nonneg(cs.skip(k + 1));
    lemma_sum_nonneg(cs.take(k));
    let i = find_name(cs[k].names_spec(), key).unwrap();
    assert(0 <= off);
    assert(off + len_k <= state.len());
    assert(state.subrange(off, off + len_k)[i] == state[off + i]);
}

/// Copies the half-open range `[start, end)` of a state vector.
fn copy_slice(v: &Vec<StateVar>, start: usize, end: usize) -> (r: Vec<StateVar>)
    requires
        start <= end <= v@.len(),
    ensures
        r@ == v@.subrange(start as int, end as int),
{
    let mut r: Vec<StateVar> = Vec::new();
    let mut i: usize = start;
    while i < end
        invariant
            start <= i <= end <= v@.len(),
            r@ == v@.subrange(start as int, i as int),
        decreases end - i,
    {
        r.push(v[i]);
        proof {
            assert(r@ =~= v@.subrange(start as int, i + 1));
        }
        i = i + 1;
    }
    r
}

/// Appends every element of `tail` onto `acc`.
fn append_states(acc: &mut Vec<StateVar>, tail: &Vec<StateVar>)
    ensures
        final(acc)@ == old(acc)@ + tail@,
{
    let ghost before = acc@;
    let mut i: usize = 0;
    while i < tail.len()
        invariant
            i <= tail@.len(),
            acc@ == before + tail@.take(i as int),
        decreases tail@.len() - i,
    {
        acc.push(tail[i]);
        proof {
            assert(acc@ =~= before + tail@.take(i + 1));
        }
        i = i + 1;
    }
    proof {
        assert(acc@ =~= before + tail@);
    }
}

} // verus!
