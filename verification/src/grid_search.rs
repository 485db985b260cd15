//! Grid-search expansion: turns one submitted request carrying "try every
//! value" fields into the full cartesian product of concrete requests.
//!
//! A request document is modelled as its ordered sequence of fields, each a
//! key with an opaque JSON value; the expansion logic — which fields are
//! removed or set, how combinations are enumerated, and in what order
//! outputs appear — is verified over that sequence.

use vstd::prelude::*;

use crate::json::{
    arr_elems, fields_view, json_as_array, json_clone, json_debug_string, json_get_field,
    json_object_entries, json_object_from_entries, lookup_field, obj_fields, object_of,
    rendering_of,
};

verus! {

/// Errors raised while preprocessing a request.
#[derive(Debug)]
pub enum PluginError {
    /// The request document does not have the structure the stage expects;
    /// carries a rendering of the offending document for diagnosis.
    UnexpectedQueryStructure(String),
}

/// One field of a document: a key and its opaque JSON value.
pub type Field = (String, serde_json::Value);

/// The expansion dimensions, each key as its character sequence and its
/// domain as the sequence of candidate values.
pub open spec fn dims_view(dims: Seq<(String, Vec<serde_json::Value>)>) -> Seq<
    (Seq<char>, Seq<serde_json::Value>),
> {
    dims.map_values(|d: (String, Vec<serde_json::Value>)| (d.0@, d.1@))
}

/// The document with every field named `key` removed.
pub open spec fn remove_field(
    doc: Seq<(Seq<char>, serde_json::Value)>,
    key: Seq<char>,
) -> Seq<(Seq<char>, serde_json::Value)>
    decreases doc.len(),
{
    if doc.len() == 0 {
        Seq::empty()
    } else {
        let rest = remove_field(doc.drop_first(), key);
        if doc[0].0 == key {
            rest
        } else {
            seq![doc[0]] + rest
        }
    }
}

/// The document with the field named `key` set to `value`: the first field
/// with that key is replaced in place, or the field is appended when the
/// key is absent.
pub open spec fn set_field(
    doc: Seq<(Seq<char>, serde_json::Value)>,
    key: Seq<char>,
    value: serde_json::Value,
) -> Seq<(Seq<char>, serde_json::Value)>
    decreases doc.len(),
{
    if doc.len() == 0 {
        seq![(key, value)]
    } else if doc[0].0 == key {
        seq![(key, value)] + doc.drop_first()
    } else {
        seq![doc[0]] + set_field(doc.drop_first(), key, value)
    }
}

/// Setting a field whose key first occurs at position `i` replaces that
/// field in place.
pub proof fn lemma_set_field_update(
    doc: Seq<(Seq<char>, serde_json::Value)>,
    key: Seq<char>,
    value: serde_json::Value,
    i: int,
)
    requires
        0 <= i < doc.len(),
        doc[i].0 == key,
        forall|j: int| 0 <= j < i ==> doc[j].0 != key,
    ensures
        set_field(doc, key, value) == doc.update(i, (key, value)),
    decreases i,
{
    if i == 0 {
        assert(seq![(key, value)] + doc.drop_first() =~= doc.update(0, (key, value)));
    } else {
        assert(forall|j: int| 0 <= j < i - 1 ==> doc.drop_first()[j] == doc[j + 1]);
        lemma_set_field_update(doc.drop_first(), key, value, i - 1);
        assert(seq![doc[0]] + doc.drop_first().update(i - 1, (key, value)) =~= doc.update(
            i,
            (key, value),
        ));
    }
}

/// Setting a field whose key occurs nowhere appends it.
pub proof fn lemma_set_field_append(
    doc: Seq<(Seq<char>, serde_json::Value)>,
    key: Seq<char>,
    value: serde_json::Value,
)
    requires
        forall|j: int| 0 <= j < doc.len() ==> doc[j].0 != key,
    ensures
        set_field(doc, key, value) == doc.push((key, value)),
    decreases doc.len(),
{
    if doc.len() == 0 {
        assert(seq![(key, value)] =~= doc.push((key, value)));
    } else {
        assert(forall|j: int|
            0 <= j < doc.drop_first().len() ==> doc.drop_first()[j] == doc[j + 1]);
        lemma_set_field_append(doc.drop_first(), key, value);
        assert(seq![doc[0]] + doc.drop_first().push((key, value)) =~= doc.push((key, value)));
    }
}

/// Removes every field named `key` from a document, cloning the fields that
/// stay.
pub fn remove_field_exec(doc: &Vec<Field>, key: &String) -> (r: Vec<Field>)
    ensures
        fields_view(r@) == remove_field(fields_view(doc@), key@),
{
    let ghost dv = fields_view(doc@);
    let mut r: Vec<Field> = Vec::new();
    proof {
        assert(dv.skip(0) =~= dv);
        assert(fields_view(r@) + remove_field(dv, key@) =~= remove_field(dv, key@));
    }
    let mut c: usize = 0;
    while c < doc.len()
        invariant
            c <= doc@.len(),
            dv == fields_view(doc@),
            remove_field(dv, key@) == fields_view(r@) + remove_field(dv.skip(c as int), key@),
        decreases doc@.len() - c,
    {
        proof {
            assert(dv.skip(c as int)[0] == dv[c as int]);
            assert(dv.skip(c as int).drop_first() =~= dv.skip(c + 1));
        }
        let ghost r_before = r@;
        if !(doc[c].0 == *key) {
            let cloned: Field = (doc[c].0.clone(), json_clone(&doc[c].1));
            r.push(cloned);
            proof {
                assert(fields_view(r@) =~= fields_view(r_before) + seq![dv[c as int]]);
                assert(fields_view(r_before) + (seq![dv[c as int]] + remove_field(
                    dv.skip(c + 1),
                    key@,
                )) =~= fields_view(r@) + remove_field(dv.skip(c + 1), key@));
            }
        }
        c = c + 1;
    }
    proof {
        assert(dv.skip(c as int) =~= Seq::<(Seq<char>, serde_json::Value)>::empty());
        assert(fields_view(r@) + remove_field(dv.skip(c as int), key@) =~= fields_view(r@));
    }
    r
}

/// Sets the field named `key` to `value` in a document: replaces the first
/// field with that key, or appends the field when the key is absent.
pub fn set_field_exec(doc: &mut Vec<Field>, key: &String, value: serde_json::Value)
    ensures
        fields_view(final(doc)@) == set_field(fields_view(old(doc)@), key@, value),
{
    let ghost dv = fields_view(doc@);
    let mut c: usize = 0;
    while c < doc.len()
        invariant
            c <= doc@.len(),
            doc@ == old(doc)@,
            dv == fields_view(doc@),
            forall|j: int| 0 <= j < c ==> dv[j].0 != key@,
        decreases doc@.len() - c,
    {
        if doc[c].0 == *key {
            let replacement: Field = (key.clone(), value);
            doc.set(c, replacement);
            proof {
                lemma_set_field_update(dv, key@, value, c as int);
                assert(fields_view(doc@) =~= dv.update(c as int, (key@, value)));
            }
            return ;
        }
        c = c + 1;
    }
    proof {
        lemma_set_field_append(dv, key@, value);
    }
    doc.push((key.clone(), value));
    proof {
        assert(fields_view(doc@) =~= dv.push((key@, value)));
    }
}

/// The sizes of the expansion dimensions' domains.
pub open spec fn dim_sizes(dims: Seq<(Seq<char>, Seq<serde_json::Value>)>) -> Seq<int> {
    dims.map_values(|d: (Seq<char>, Seq<serde_json::Value>)| d.1.len() as int)
}

/// The number of combinations of dimension domains with the given sizes.
pub open spec fn dims_product(sizes: Seq<int>) -> int
    decreases sizes.len(),
{
    if sizes.len() == 0 {
        1
    } else {
        sizes[0] * dims_product(sizes.drop_first())
    }
}

/// The stride of dimension `d`: how many consecutive outputs keep its
/// selected value. The first-declared dimension has stride one and varies
/// fastest; each later dimension changes only after all earlier dimensions
/// have cycled through their full domains.
pub open spec fn dim_stride(sizes: Seq<int>, d: int) -> int {
    dims_product(sizes.take(d))
}

/// The index into dimension `d`'s domain selected by output `j`.
pub open spec fn combo_index(sizes: Seq<int>, d: int, j: int) -> int {
    (j / dim_stride(sizes, d)) % sizes[d]
}

/// The document of output `j` once the dimensions from `from` on are set;
/// dimensions before `from` are already reflected in `base`.
pub open spec fn apply_dims_from(
    base: Seq<(Seq<char>, serde_json::Value)>,
    dims: Seq<(Seq<char>, Seq<serde_json::Value>)>,
    j: int,
    from: int,
) -> Seq<(Seq<char>, serde_json::Value)>
    decreases dims.len() - from,
{
    if from < 0 || from >= dims.len() {
        base
    } else {
        apply_dims_from(
            set_field(base, dims[from].0, dims[from].1[combo_index(dim_sizes(dims), from, j)]),
            dims,
            j,
            from + 1,
        )
    }
}

/// The document of output `j`: the base document with every dimension set
/// to the value its combination index selects.
pub open spec fn expanded_doc(
    base: Seq<(Seq<char>, serde_json::Value)>,
    dims: Seq<(Seq<char>, Seq<serde_json::Value>)>,
    j: int,
) -> Seq<(Seq<char>, serde_json::Value)> {
    apply_dims_from(base, dims, j, 0)
}

/// A product of domain sizes that are all at least one is at least one.
pub proof fn lemma_product_positive(sizes: Seq<int>)
    requires
        forall|i: int| 0 <= i < sizes.len() ==> sizes[i] >= 1,
    ensures
        dims_product(sizes) >= 1,
    decreases sizes.len(),
{
    if sizes.len() > 0 {
        assert(forall|i: int|
            0 <= i < sizes.drop_first().len() ==> sizes.drop_first()[i] == sizes[i + 1]);
        lemma_product_positive(sizes.drop_first());
        assert(sizes[0] * dims_product(sizes.drop_first()) >= 1) by (nonlinear_arith)
            requires
                sizes[0] >= 1,
                dims_product(sizes.drop_first()) >= 1,
        ;
    }
}

/// A domain of size zero makes the whole product zero.
pub proof fn lemma_product_zero(sizes: Seq<int>, i: int)
    requires
        0 <= i < sizes.len(),
        sizes[i] == 0,
    ensures
        dims_product(sizes) == 0,
    decreases i,
{
    if i == 0 {
        assert(dims_product(sizes) == 0) by (nonlinear_arith)
            requires
                dims_product(sizes) == sizes[0] * dims_product(sizes.drop_first()),
                sizes[0] == 0,
        ;
    } else {
        assert(sizes.drop_first()[i - 1] == sizes[i]);
        lemma_product_zero(sizes.drop_first(), i - 1);
        assert(dims_product(sizes) == 0) by (nonlinear_arith)
            requires
                dims_product(sizes) == sizes[0] * dims_product(sizes.drop_first()),
                dims_product(sizes.drop_first()) == 0,
        ;
    }
}

/// Appending one domain multiplies the product by its size.
pub proof fn lemma_product_push(sizes: Seq<int>, x: int)
    ensures
        dims_product(sizes.push(x)) == dims_product(sizes) * x,
    decreases sizes.len(),
{
    if sizes.len() == 0 {
        assert(sizes.push(x)[0] == x);
        assert(sizes.push(x).drop_first() =~= Seq::<int>::empty());
        assert(dims_product(Seq::<int>::empty()) == 1);
        assert(dims_product(sizes.push(x)) == x * dims_product(sizes.push(x).drop_first()));
        assert(x * 1 == 1 * x) by (nonlinear_arith);
    } else {
        assert(sizes.push(x)[0] == sizes[0]);
        assert(sizes.push(x).drop_first() =~= sizes.drop_first().push(x));
        lemma_product_push(sizes.drop_first(), x);
        assert(sizes[0] * (dims_product(sizes.drop_first()) * x) == (sizes[0] * dims_product(
            sizes.drop_first(),
        )) * x) by (nonlinear_arith);
    }
}

/// The product splits at any point into the product of the first `d` sizes
/// and the product of the rest.
pub proof fn lemma_product_split(sizes: Seq<int>, d: int)
    requires
        0 <= d <= sizes.len(),
    ensures
        dims_product(sizes) == dim_stride(sizes, d) * dims_product(sizes.skip(d)),
    decreases d,
{
    if d == 0 {
        assert(sizes.take(0) =~= Seq::<int>::empty());
        assert(sizes.skip(0) =~= sizes);
        assert(dims_product(sizes) == 1 * dims_product(sizes)) by (nonlinear_arith);
    } else {
        lemma_product_split(sizes, d - 1);
        assert(sizes.take(d) =~= sizes.take(d - 1).push(sizes[d - 1]));
        lemma_product_push(sizes.take(d - 1), sizes[d - 1]);
        assert(sizes.skip(d - 1).len() > 0);
        assert(sizes.skip(d - 1)[0] == sizes[d - 1]);
        assert(sizes.skip(d - 1).drop_first() =~= sizes.skip(d));
        assert(dim_stride(sizes, d - 1) * (sizes[d - 1] * dims_product(sizes.skip(d)))
            == (dim_stride(sizes, d - 1) * sizes[d - 1]) * dims_product(sizes.skip(d)))
            by (nonlinear_arith);
    }
}

/// With every domain of size at least one, no stride exceeds the whole
/// product.
pub proof fn lemma_stride_bounded(sizes: Seq<int>, d: int)
    requires
        0 <= d <= sizes.len(),
        forall|i: int| 0 <= i < sizes.len() ==> sizes[i] >= 1,
    ensures
        1 <= dim_stride(sizes, d) <= dims_product(sizes),
{
    lemma_product_split(sizes, d);
    assert(forall|i: int|
        0 <= i < sizes.take(d).len() ==> sizes.take(d)[i] == sizes[i]);
    lemma_product_positive(sizes.take(d));
    assert(forall|i: int|
        0 <= i < sizes.skip(d).len() ==> sizes.skip(d)[i] == sizes[i + d]);
    lemma_product_positive(sizes.skip(d));
    assert(dim_stride(sizes, d) <= dim_stride(sizes, d) * dims_product(sizes.skip(d)))
        by (nonlinear_arith)
        requires
            dim_stride(sizes, d) >= 1,
            dims_product(sizes.skip(d)) >= 1,
    ;
}

/// Clones a document's fields.
fn clone_fields(v: &Vec<Field>) -> (r: Vec<Field>)
    ensures
        r@ == v@,
{
    let mut r: Vec<Field> = Vec::new();
    let mut c: usize = 0;
    while c < v.len()
        invariant
            c <= v@.len(),
            r@ == v@.take(c as int),
        decreases v@.len() - c,
    {
        let cloned: Field = (v[c].0.clone(), json_clone(&v[c].1));
        r.push(cloned);
        proof {
            assert(r@ =~= v@.take(c + 1));
        }
        c = c + 1;
    }
    proof {
        assert(v@.take(c as int) =~= v@);
    }
    r
}

/// Expands a base document over expansion dimensions into the cartesian
/// product of concrete documents, in mixed-radix order: output `j` takes,
/// for each dimension `d`, element `(j / stride(d)) % size(d)` of its
/// domain, so the first-declared dimension varies fastest. The number of
/// outputs is the product of the domain sizes; a product beyond what a
/// vector can hold is reported as an error.
pub fn expand_combinations(
    base: &Vec<Field>,
    dims: &Vec<(String, Vec<serde_json::Value>)>,
) -> (r: Result<Vec<Vec<Field>>, PluginError>)
    ensures
        ({
            let dv = dims_view(dims@);
            let sizes = dim_sizes(dv);
            let p = dims_product(sizes);
            &&& p <= usize::MAX ==> (r matches Ok(out) && out@.len() == p && (forall|j: int|
                0 <= j < out@.len() ==> fields_view(out@[j]@) == expanded_doc(
                    fields_view(base@),
                    dv,
                    j,
                )))
            &&& p > usize::MAX ==> r is Err
        }),
{
    let ghost dv = dims_view(dims@);
    let ghost sizes = dim_sizes(dv);
    let ghost bdv = fields_view(base@);
    proof {
        assert(sizes.len() == dims@.len());
    }
    let mut d: usize = 0;
    while d < dims.len()
        invariant
            d <= dims@.len(),
            dv == dims_view(dims@),
            sizes == dim_sizes(dv),
            forall|i: int| 0 <= i < d ==> sizes[i] >= 1,
        decreases dims@.len() - d,
    {
        if dims[d].1.len() == 0 {
            proof {
                assert(sizes[d as int] == 0);
                lemma_product_zero(sizes, d as int);
            }
            return Ok(Vec::new());
        }
        d = d + 1;
    }
    let ghost p = dims_product(sizes);
    proof {
        lemma_product_positive(sizes);
    }
    let mut total: usize = 1;
    let mut d: usize = 0;
    while d < dims.len()
        invariant
            d <= dims@.len(),
            dv == dims_view(dims@),
            sizes == dim_sizes(dv),
            p == dims_product(sizes),
            forall|i: int| 0 <= i < sizes.len() ==> sizes[i] >= 1,
            total == dim_stride(sizes, d as int),
        decreases dims@.len() - d,
    {
        proof {
            assert(sizes.take(d + 1) =~= sizes.take(d as int).push(sizes[d as int]));
            lemma_product_push(sizes.take(d as int), sizes[d as int]);
            lemma_stride_bounded(sizes, d + 1);
        }
        match total.checked_mul(dims[d].1.len()) {
            Some(t) => {
                total = t;
            },
            None => {
                return Err(
                    PluginError::UnexpectedQueryStructure(
                        "grid search combination count does not fit in memory".to_owned(),
                    ),
                );
            },
        }
        d = d + 1;
    }
    proof {
        assert(sizes.take(sizes.len() as int) =~= sizes);
        assert(total == p);
    }
    let mut out: Vec<Vec<Field>> = Vec::new();
    let mut j: usize = 0;
    while j < total
        invariant
            j <= total,
            dv == dims_view(dims@),
            sizes == dim_sizes(dv),
            bdv == fields_view(base@),
            p == dims_product(sizes),
            total == p,
            forall|i: int| 0 <= i < sizes.len() ==> sizes[i] >= 1,
            out@.len() == j,
            forall|q: int|
                0 <= q < j ==> fields_view(out@[q]@) == expanded_doc(bdv, dv, q),
        decreases total - j,
    {
        let mut instance: Vec<Field> = clone_fields(base);
        let mut stride: usize = 1;
        let mut d: usize = 0;
        while d < dims.len()
            invariant
                d <= dims@.len(),
                j < total,
                dv == dims_view(dims@),
                sizes == dim_sizes(dv),
                p == dims_product(sizes),
                total == p,
                forall|i: int| 0 <= i < sizes.len() ==> sizes[i] >= 1,
                stride == dim_stride(sizes, d as int),
                expanded_doc(bdv, dv, j as int) == apply_dims_from(
                    fields_view(instance@),
                    dv,
                    j as int,
                    d as int,
                ),
            decreases dims@.len() - d,
        {
            proof {
                lemma_stride_bounded(sizes, d as int);
            }
            let size_d: usize = dims[d].1.len();
            let idx: usize = (j / stride) % size_d;
            proof {
                assert(idx == combo_index(sizes, d as int, j as int));
                assert(idx < size_d);
                assert(dv[d as int].1[idx as int] == dims@[d as int].1@[idx as int]);
            }
            let chosen = json_clone(&dims[d].1[idx]);
            set_field_exec(&mut instance, &dims[d].0, chosen);
            proof {
                assert(sizes.take(d + 1) =~= sizes.take(d as int).push(sizes[d as int]));
                lemma_product_push(sizes.take(d as int), sizes[d as int]);
                lemma_stride_bounded(sizes, d + 1);
            }
            stride = stride * size_d;
            d = d + 1;
        }
        proof {
            assert(apply_dims_from(fields_view(instance@), dv, j as int, d as int) == fields_view(
                instance@,
            ));
        }
        out.push(instance);
        j = j + 1;
    }
    Ok(out)
}

/// The expansion dimensions declared by the fields of the control
/// mapping: each array-valued field, in declaration order, with its
/// elements as the domain of values to try; fields of any other kind are
/// ignored.
pub open spec fn expansion_dims(fields: Seq<(Seq<char>, serde_json::Value)>) -> Seq<
    (Seq<char>, Seq<serde_json::Value>),
>
    decreases fields.len(),
{
    if fields.len() == 0 {
        Seq::empty()
    } else {
        let rest = expansion_dims(fields.drop_first());
        match arr_elems(fields[0].1) {
            Some(elems) => seq![(fields[0].0, elems)] + rest,
            None => rest,
        }
    }
}

/// An input-preprocessing stage that duplicates queries when array-valued
/// fields are present under the grid-search control field, by stepping
/// through each combination of values.
pub struct GridSearchPlugin {}

impl GridSearchPlugin {
    /// Expands one request document. A document without the `grid_search`
    /// control field passes through alone, unchanged. Otherwise the control
    /// field's value must itself be an object, or the request is rejected
    /// with its rendering; each array-valued field of that object is one
    /// expansion dimension (fields of any other kind are ignored), and the
    /// output holds one document per combination of the dimensions' values,
    /// enumerated by `expand_combinations` in mixed-radix order: a fresh
    /// copy of the input without the control field, each expansion field
    /// set to the selected value, all other fields unchanged.
    pub fn process(&self, input: &serde_json::Value) -> (r: Result<
        Vec<serde_json::Value>,
        PluginError,
    >)
        ensures
            ({
                let control = match obj_fields(*input) {
                    Some(fields) => lookup_field(fields, "grid_search"@),
                    None => None::<serde_json::Value>,
                };
                match control {
                    None => r matches Ok(out) && out@ == seq![*input],
                    Some(gs) => match (obj_fields(gs), obj_fields(*input)) {
                        (Some(gfs), Some(pfs)) => {
                            let dims = expansion_dims(gfs);
                            let base = remove_field(pfs, "grid_search"@);
                            let p = dims_product(dim_sizes(dims));
                            &&& p <= usize::MAX ==> (r matches Ok(out) && out@.len() == p && (
                            forall|j: int|
                                0 <= j < out@.len() ==> out@[j] == object_of(
                                    expanded_doc(base, dims, j),
                                )))
                            &&& p > usize::MAX ==> r is Err
                        },
                        _ => r matches Err(PluginError::UnexpectedQueryStructure(s)) && s@
                            == rendering_of(*input),
                    },
                }
            }),
    {
        let control: String = "grid_search".to_owned();
        match json_get_field(input, "grid_search") {
            None => {
                let mut out: Vec<serde_json::Value> = Vec::new();
                out.push(json_clone(input));
                proof {
                    assert(out@ =~= seq![*input]);
                }
                Ok(out)
            },
            Some(gs) => {
                let control_entries = match json_object_entries(&gs) {
                    Some(es) => es,
                    None => {
                        return Err(
                            PluginError::UnexpectedQueryStructure(json_debug_string(input)),
                        );
                    },
                };
                let ghost gfs = fields_view(control_entries@);
                let mut dims: Vec<(String, Vec<serde_json::Value>)> = Vec::new();
                proof {
                    assert(gfs.skip(0) =~= gfs);
                    assert(dims_view(dims@) + expansion_dims(gfs) =~= expansion_dims(gfs));
                }
                let mut c: usize = 0;
                while c < control_entries.len()
                    invariant
                        c <= control_entries@.len(),
                        gfs == fields_view(control_entries@),
                        expansion_dims(gfs) == dims_view(dims@) + expansion_dims(
                            gfs.skip(c as int),
                        ),
                    decreases control_entries@.len() - c,
                {
                    proof {
                        assert(gfs.skip(c as int)[0] == gfs[c as int]);
                        assert(gfs.skip(c as int).drop_first() =~= gfs.skip(c + 1));
                    }
                    let ghost dims_before = dims@;
                    match json_as_array(&control_entries[c].1) {
                        Some(values) => {
                            dims.push((control_entries[c].0.clone(), values));
                            proof {
                                let dim = (gfs[c as int].0, arr_elems(gfs[c as int].1).unwrap());
                                assert(dims_view(dims@) =~= dims_view(dims_before).push(dim));
                                assert(dims_view(dims_before) + (seq![dim] + expansion_dims(
                                    gfs.skip(c + 1),
                                )) =~= dims_view(dims@) + expansion_dims(gfs.skip(c + 1)));
                            }
                        },
                        None => {},
                    }
                    c = c + 1;
                }
                proof {
                    assert(gfs.skip(c as int)
                        =~= Seq::<(Seq<char>, serde_json::Value)>::empty());
                    assert(dims_view(dims@) + expansion_dims(gfs.skip(c as int)) =~= dims_view(
                        dims@,
                    ));
                }
                let parent_entries = match json_object_entries(input) {
                    Some(es) => es,
                    None => {
                        return Err(
                            PluginError::UnexpectedQueryStructure(json_debug_string(input)),
                        );
                    },
                };
                let ghost pfs = fields_view(parent_entries@);
                let base = remove_field_exec(&parent_entries, &control);
                let combos = match expand_combinations(&base, &dims) {
                    Ok(cs) => cs,
                    Err(e) => {
                        return Err(e);
                    },
                };
                let ghost spec_dims = dims_view(dims@);
                let ghost spec_base = fields_view(base@);
                let mut out: Vec<serde_json::Value> = Vec::new();
                let mut q: usize = 0;
                while q < combos.len()
                    invariant
                        q <= combos@.len(),
                        out@.len() == q,
                        obj_fields(*input) == Some(pfs),
                        lookup_field(pfs, "grid_search"@) == Some(gs),
                        obj_fields(gs) == Some(gfs),
                        spec_dims == expansion_dims(gfs),
                        spec_base == remove_field(pfs, "grid_search"@),
                        combos@.len() == dims_product(dim_sizes(spec_dims)),
                        forall|i: int|
                            0 <= i < combos@.len() ==> fields_view(combos@[i]@) == expanded_doc(
                                spec_base,
                                spec_dims,
                                i,
                            ),
                        forall|i: int|
                            0 <= i < q ==> out@[i] == object_of(
                                expanded_doc(spec_base, spec_dims, i),
                            ),
                    decreases combos@.len() - q,
                {
                    let fields = clone_fields(&combos[q]);
                    out.push(json_object_from_entries(fields));
                    q = q + 1;
                }
                Ok(out)
            },
        }
    }
}

} // verus!
