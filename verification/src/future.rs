//! The deferred-computation shape: a value whose production is postponed
//! until the computation is explicitly driven to completion.
//!
//! Binding builds a [`BoundFuture`] without invoking the step; only driving
//! the composed computation resolves the input, then invokes the step once,
//! then resolves the step's result, in that order.

use vstd::prelude::*;

verus! {

/// A computation that performs no work until driven to completion by its
/// holder.
pub trait Deferred: Sized {
    /// The type of the value the computation resolves to.
    type Output;

    /// When the computation may be driven.
    spec fn pre(self) -> bool;

    /// The values this computation may resolve to.
    spec fn resolves_to(self, b: Self::Output) -> bool;

    /// Drive the computation to completion and hand out its value.
    fn drive(self) -> (b: Self::Output)
        requires
            self.pre(),
        ensures
            self.resolves_to(b),
    ;
}

/// The canonical deferred computation: holds its eventual value and yields
/// it when driven.
pub struct Future<A> {
    value: A,
}

impl<A> View for Future<A> {
    type V = A;

    closed spec fn view(&self) -> A {
        self.value
    }
}

impl<A> Future<A> {
    /// Wrap a plain value as an already-resolved deferred computation.
    pub fn pure(b: A) -> (r: Future<A>)
        ensures
            r@ == b,
    {
        Future { value: b }
    }
}

impl<A> Deferred for Future<A> {
    type Output = A;

    open spec fn pre(self) -> bool {
        true
    }

    open spec fn resolves_to(self, b: A) -> bool {
        b == self@
    }

    fn drive(self) -> (b: A) {
        self.value
    }
}

/// A deferred computation bound with a step: driving it resolves the input,
/// feeds the value to the step, and resolves the step's result, in that
/// order.  The step is not invoked before the computation is driven.
pub struct BoundFuture<D, G, MB> {
    /// The input computation, resolved first.
    pub input: D,
    /// The step, invoked exactly once on the input's value.
    pub step: G,
    /// Marker for the step's result type.
    pub mid: core::marker::PhantomData<MB>,
}

impl<D: Deferred, MB: Deferred, G: FnOnce(D::Output) -> MB> Deferred for BoundFuture<D, G, MB> {
    type Output = MB::Output;

    open spec fn pre(self) -> bool {
        &&& self.input.pre()
        &&& forall|a: D::Output|
            self.input.resolves_to(a) ==> call_requires(self.step, (a,))
        &&& forall|a: D::Output, mb: MB|
            self.input.resolves_to(a) && call_ensures(self.step, (a,), mb) ==> mb.pre()
    }

    open spec fn resolves_to(self, b: MB::Output) -> bool {
        exists|a: D::Output, mb: MB|
            {
                &&& self.input.resolves_to(a)
                &&& call_ensures(self.step, (a,), mb)
                &&& mb.resolves_to(b)
            }
    }

    fn drive(self) -> (b: MB::Output) {
        let a = self.input.drive();
        let ghost av = a;
        let mb = (self.step)(a);
        let ghost mbv = mb;
        let b = mb.drive();
        proof {
            assert({
                &&& self.input.resolves_to(av)
                &&& call_ensures(self.step, (av,), mbv)
                &&& mbv.resolves_to(b)
            });
        }
        b
    }
}

/// Defer a step after a deferred computation.  Building the bound
/// computation invokes nothing; the step runs only when the result is
/// driven, strictly after the input resolves.
pub fn future_bind<D: Deferred, MB: Deferred, G: FnOnce(D::Output) -> MB>(input: D, step: G) -> (r:
    BoundFuture<D, G, MB>)
    ensures
        r.input == input,
        r.step == step,
{
    BoundFuture { input, step, mid: core::marker::PhantomData }
}

/// A deferred computation whose eventual value is transformed: driving it
/// resolves the input, then applies the transform once.
pub struct MappedFuture<D, F> {
    /// The input computation, resolved first.
    pub input: D,
    /// The transform, applied exactly once to the input's value.
    pub transform: F,
}

impl<D: Deferred, B, F: FnOnce(D::Output) -> B> Deferred for MappedFuture<D, F> {
    type Output = B;

    open spec fn pre(self) -> bool {
        &&& self.input.pre()
        &&& forall|a: D::Output|
            self.input.resolves_to(a) ==> call_requires(self.transform, (a,))
    }

    open spec fn resolves_to(self, b: B) -> bool {
        exists|a: D::Output|
            {
                &&& self.input.resolves_to(a)
                &&& call_ensures(self.transform, (a,), b)
            }
    }

    fn drive(self) -> (b: B) {
        let a = self.input.drive();
        let ghost av = a;
        let b = (self.transform)(a);
        proof {
            assert(self.input.resolves_to(av) && call_ensures(self.transform, (av,), b));
        }
        b
    }
}

/// Defer a transform of a deferred computation's eventual value.  The
/// transform is not invoked until the result is driven.
pub fn future_fmap<D: Deferred, B, F: FnOnce(D::Output) -> B>(input: D, transform: F) -> (r:
    MappedFuture<D, F>)
    ensures
        r.input == input,
        r.transform == transform,
{
    MappedFuture { input, transform }
}

/// The meaning of [`BoundFuture`]'s driving precondition.  A spec function
/// of a trait implementation does not unfold at every use site; this
/// equality restates its definition for callers.
pub proof fn lemma_bound_future_pre<D: Deferred, MB: Deferred, G: FnOnce(D::Output) -> MB>(
    m: BoundFuture<D, G, MB>,
)
    ensures
        m.pre() == {
            &&& m.input.pre()
            &&& forall|a: D::Output| m.input.resolves_to(a) ==> call_requires(m.step, (a,))
            &&& forall|a: D::Output, mb: MB|
                m.input.resolves_to(a) && call_ensures(m.step, (a,), mb) ==> mb.pre()
        },
{
}

/// The meaning of [`BoundFuture`]'s resolution: a value of the step's
/// result, for a value the input resolves to.
pub proof fn lemma_bound_future_resolves<D: Deferred, MB: Deferred, G: FnOnce(D::Output) -> MB>(
    m: BoundFuture<D, G, MB>,
    b: MB::Output,
)
    ensures
        m.resolves_to(b) == exists|a: D::Output, mb: MB|
            {
                &&& m.input.resolves_to(a)
                &&& #[trigger] call_ensures(m.step, (a,), mb)
                &&& mb.resolves_to(b)
            },
{
}

/// The meaning of [`MappedFuture`]'s driving precondition.
pub proof fn lemma_mapped_future_pre<D: Deferred, B, F: FnOnce(D::Output) -> B>(
    m: MappedFuture<D, F>,
)
    ensures
        m.pre() == {
            &&& m.input.pre()
            &&& forall|a: D::Output| m.input.resolves_to(a) ==> call_requires(m.transform, (a,))
        },
{
}

/// The meaning of [`MappedFuture`]'s resolution: the transform of a value
/// the input resolves to.
pub proof fn lemma_mapped_future_resolves<D: Deferred, B, F: FnOnce(D::Output) -> B>(
    m: MappedFuture<D, F>,
    b: B,
)
    ensures
        m.resolves_to(b) == exists|a: D::Output|
            {
                &&& m.input.resolves_to(a)
                &&& #[trigger] call_ensures(m.transform, (a,), b)
            },
{
}

/// Drive a bound computation to completion, with its outcome stated over
/// the parts directly: the result is what the step's computation resolves
/// to, for a value the input resolves to.
pub fn drive_bound<D: Deferred, MB: Deferred, G: FnOnce(D::Output) -> MB>(
    m: BoundFuture<D, G, MB>,
) -> (b: MB::Output)
    requires
        m.pre(),
    ensures
        exists|a: D::Output, mb: MB|
            {
                &&& m.input.resolves_to(a)
                &&& #[trigger] call_ensures(m.step, (a,), mb)
                &&& mb.resolves_to(b)
            },
{
    let ghost mv = m;
    let b = m.drive();
    proof {
        lemma_bound_future_resolves(mv, b);
    }
    b
}

/// Drive a mapped computation to completion, with its outcome stated over
/// the parts directly: the result is the transform of a value the input
/// resolves to.
pub fn drive_mapped<D: Deferred, B, F: FnOnce(D::Output) -> B>(m: MappedFuture<D, F>) -> (b: B)
    requires
        m.pre(),
    ensures
        exists|a: D::Output|
            {
                &&& m.input.resolves_to(a)
                &&& #[trigger] call_ensures(m.transform, (a,), b)
            },
{
    let ghost mv = m;
    let b = m.drive();
    proof {
        lemma_mapped_future_resolves(mv, b);
    }
    b
}

/// Identity law for the deferred shape: a mapped computation whose
/// transform returns its argument unchanged resolves to exactly the values
/// of its input.
pub proof fn lemma_future_map_identity<D: Deferred, F: FnOnce(D::Output) -> D::Output>(
    m: MappedFuture<D, F>,
    b: D::Output,
)
    requires
        forall|a: D::Output, y: D::Output| call_ensures(m.transform, (a,), y) ==> y == a,
        m.resolves_to(b),
    ensures
        m.input.resolves_to(b),
{
}

/// Wrap-then-bind law for the deferred shape: a bound computation whose
/// input is an already-resolved wrap resolves to exactly what the step's
/// result resolves to.
pub proof fn lemma_future_bind_wrap<A, MB: Deferred, G: FnOnce(A) -> MB>(
    m: BoundFuture<Future<A>, G, MB>,
    b: MB::Output,
)
    requires
        m.resolves_to(b),
    ensures
        exists|mb: MB| #[trigger] call_ensures(m.step, (m.input@,), mb) && mb.resolves_to(b),
{
}

} // verus!
