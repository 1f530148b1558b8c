//! Spec-level models of the container shapes and the functor/monad laws
//! over them.
//!
//! Each lemma here is quantified over every container of its model and over
//! every pure transform (a `spec_fn`), so together they state the laws for
//! all inputs, not just chosen ones.

use vstd::prelude::*;

verus! {

// ---------------------------------------------------------------------
// The optional-value model.
// ---------------------------------------------------------------------
/// Mapping over an optional value: apply `f` to the held value, keep
/// absence.
pub open spec fn option_map<A, B>(o: Option<A>, f: spec_fn(A) -> B) -> Option<B> {
    match o {
        Option::Some(a) => Option::Some(f(a)),
        Option::None => Option::None,
    }
}

/// The canonical single-value optional container.
pub open spec fn option_wrap<A>(a: A) -> Option<A> {
    Option::Some(a)
}

/// Binding an optional value: absence short-circuits, otherwise the step
/// result stands as is.
pub open spec fn option_bind<A, B>(o: Option<A>, f: spec_fn(A) -> Option<B>) -> Option<B> {
    match o {
        Option::Some(a) => f(a),
        Option::None => Option::None,
    }
}

/// Identity law for the optional shape: mapping with the identity transform
/// changes nothing.
pub proof fn lemma_option_map_identity<A>(o: Option<A>)
    ensures
        option_map(o, |a: A| a) == o,
{
}

/// Composition law for the optional shape: mapping twice equals mapping
/// with the composed transform.
pub proof fn lemma_option_map_compose<A, B, C>(o: Option<A>, f: spec_fn(A) -> B, g: spec_fn(
    B,
) -> C)
    ensures
        option_map(option_map(o, f), g) == option_map(o, |a: A| g(f(a))),
{
}

/// Wrap-then-bind law for the optional shape.
pub proof fn lemma_option_bind_wrap<A, B>(a: A, f: spec_fn(A) -> Option<B>)
    ensures
        option_bind(option_wrap(a), f) == f(a),
{
}

/// Bind-then-wrap law for the optional shape.
pub proof fn lemma_option_wrap_bind<A>(o: Option<A>)
    ensures
        option_bind(o, |a: A| option_wrap(a)) == o,
{
}

// ---------------------------------------------------------------------
// The fallible-result model.
// ---------------------------------------------------------------------
/// Mapping over a fallible result: apply `f` to the success value, keep the
/// error untouched.
pub open spec fn result_map<A, B, E>(r: Result<A, E>, f: spec_fn(A) -> B) -> Result<B, E> {
    match r {
        Result::Ok(a) => Result::Ok(f(a)),
        Result::Err(e) => Result::Err(e),
    }
}

/// The canonical success container.
pub open spec fn result_wrap<A, E>(a: A) -> Result<A, E> {
    Result::Ok(a)
}

/// Binding a fallible result: an error short-circuits, otherwise the step
/// result stands as is.
pub open spec fn result_bind<A, B, E>(r: Result<A, E>, f: spec_fn(A) -> Result<B, E>) -> Result<
    B,
    E,
> {
    match r {
        Result::Ok(a) => f(a),
        Result::Err(e) => Result::Err(e),
    }
}

/// Identity law for the fallible shape.
pub proof fn lemma_result_map_identity<A, E>(r: Result<A, E>)
    ensures
        result_map(r, |a: A| a) == r,
{
}

/// Composition law for the fallible shape.
pub proof fn lemma_result_map_compose<A, B, C, E>(
    r: Result<A, E>,
    f: spec_fn(A) -> B,
    g: spec_fn(B) -> C,
)
    ensures
        result_map(result_map(r, f), g) == result_map(r, |a: A| g(f(a))),
{
}

/// Wrap-then-bind law for the fallible shape.
pub proof fn lemma_result_bind_wrap<A, B, E>(a: A, f: spec_fn(A) -> Result<B, E>)
    ensures
        result_bind(result_wrap(a), f) == f(a),
{
}

/// Bind-then-wrap law for the fallible shape.
pub proof fn lemma_result_wrap_bind<A, E>(r: Result<A, E>)
    ensures
        result_bind(r, |a: A| result_wrap(a)) == r,
{
}

// ---------------------------------------------------------------------
// The sequence model, shared by every sequence-like shape.
// ---------------------------------------------------------------------
/// The canonical one-element sequence.
pub open spec fn seq_wrap<A>(a: A) -> Seq<A> {
    seq![a]
}

/// Binding a sequence: apply `f` to every element and concatenate the
/// results in input order, duplicates preserved.
pub open spec fn seq_bind<A, B>(s: Seq<A>, f: spec_fn(A) -> Seq<B>) -> Seq<B> {
    s.map_values(f).flatten()
}

/// Identity law for sequence shapes.
pub proof fn lemma_seq_map_identity<A>(s: Seq<A>)
    ensures
        s.map_values(|a: A| a) == s,
{
    assert(s.map_values(|a: A| a) =~= s);
}

/// Composition law for sequence shapes.
pub proof fn lemma_seq_map_compose<A, B, C>(s: Seq<A>, f: spec_fn(A) -> B, g: spec_fn(B) -> C)
    ensures
        s.map_values(f).map_values(g) == s.map_values(|a: A| g(f(a))),
{
    assert(s.map_values(f).map_values(g) =~= s.map_values(|a: A| g(f(a))));
}

/// Flattening a sequence of one-element sequences yields the sequence of
/// those elements.
pub proof fn lemma_flatten_singletons<B>(vs: Seq<Seq<B>>, vm: Seq<B>)
    requires
        vs.len() == vm.len(),
        forall|i: int| 0 <= i < vs.len() ==> (#[trigger] vs[i]).len() == 1 && vs[i][0] == vm[i],
    ensures
        vs.flatten() == vm,
    decreases vs.len(),
{
    if vs.len() == 0 {
        assert(vs.flatten() =~= vm);
    } else {
        lemma_flatten_singletons(vs.drop_first(), vm.drop_first());
        assert(vs.first() =~= seq![vm[0]]);
        assert(vs.flatten() == vs.first() + vs.drop_first().flatten());
        assert(vs.flatten() =~= vm);
    }
}

/// Wrap-then-bind law for sequence shapes.
pub proof fn lemma_seq_bind_wrap<A, B>(a: A, f: spec_fn(A) -> Seq<B>)
    ensures
        seq_bind(seq_wrap(a), f) == f(a),
{
    let m = seq_wrap(a).map_values(f);
    assert(m =~= seq![f(a)]);
    m.lemma_flatten_one_element();
}

/// Bridge from the operations' relational contracts to the sequence
/// model: a value map that agrees pointwise with a pure transform is the
/// model-level mapping by that transform.
pub proof fn lemma_pointwise_map<A, B>(s: Seq<A>, vm: Seq<B>, f: spec_fn(A) -> B)
    requires
        vm.len() == s.len(),
        forall|i: int| 0 <= i < s.len() ==> vm[i] == f(s[i]),
    ensures
        vm == s.map_values(f),
{
    assert(vm =~= s.map_values(f));
}

/// Bridge from `bind`'s relational contract to the sequence model: inner
/// views that agree pointwise with a pure step flatten to the model-level
/// binding by that step.
pub proof fn lemma_pointwise_bind<A, B>(s: Seq<A>, views: Seq<Seq<B>>, f: spec_fn(A) -> Seq<B>)
    requires
        views.len() == s.len(),
        forall|i: int| 0 <= i < s.len() ==> views[i] == f(s[i]),
    ensures
        views.flatten() == seq_bind(s, f),
{
    lemma_pointwise_map(s, views, f);
}

/// Bind-then-wrap law for sequence shapes.
pub proof fn lemma_seq_wrap_bind<A>(s: Seq<A>)
    ensures
        seq_bind(s, |a: A| seq_wrap(a)) == s,
{
    lemma_flatten_singletons(s.map_values(|a: A| seq_wrap(a)), s);
}

} // verus!
