//! Callable shapes: one-shot producers and one-shot consumers.
//!
//! A producer (a zero-argument callable) is a deferred computation, so it
//! implements [`Deferred`] and shares the deferred shape's mapping and
//! binding combinators.  A consumer takes a value in; its held type is
//! reverse-mapped ([`contramap`]): adapting a consumer of `Y` with a
//! conversion from `X` yields a consumer of `X` that converts once and
//! forwards once.

use vstd::prelude::*;

use crate::future::Deferred;

verus! {

/// A one-shot producer wrapping a zero-argument callable.
pub struct Thunk<F> {
    /// The callable, invoked exactly once when the producer is driven.
    pub f: F,
}

/// Wrap a zero-argument callable as a producer.
pub fn thunk<A, F: FnOnce() -> A>(f: F) -> (r: Thunk<F>)
    ensures
        r.f == f,
{
    Thunk { f }
}

impl<A, F: FnOnce() -> A> Deferred for Thunk<F> {
    type Output = A;

    open spec fn pre(self) -> bool {
        call_requires(self.f, ())
    }

    open spec fn resolves_to(self, a: A) -> bool {
        call_ensures(self.f, (), a)
    }

    fn drive(self) -> (a: A) {
        (self.f)()
    }
}

/// The applicative of the deferred shapes: driving resolves the transform
/// producer first, then the value producer, then applies the transform
/// once.
pub struct ApplyDeferred<PF, PA> {
    /// The producer of the transform, resolved first.
    pub func: PF,
    /// The producer of the value, resolved second.
    pub arg: PA,
}

impl<B, PA: Deferred, PF: Deferred, G: FnOnce(PA::Output) -> B> Deferred for ApplyDeferred<
    PF,
    PA,
> where PF: Deferred<Output = G> {
    type Output = B;

    open spec fn pre(self) -> bool {
        &&& self.func.pre()
        &&& self.arg.pre()
        &&& forall|g: G, a: PA::Output|
            self.func.resolves_to(g) && self.arg.resolves_to(a) ==> #[trigger] call_requires(
                g,
                (a,),
            )
    }

    open spec fn resolves_to(self, b: B) -> bool {
        exists|g: G, a: PA::Output|
            {
                &&& self.func.resolves_to(g)
                &&& self.arg.resolves_to(a)
                &&& call_ensures(g, (a,), b)
            }
    }

    fn drive(self) -> (b: B) {
        let g = self.func.drive();
        let ghost gv = g;
        let a = self.arg.drive();
        let ghost av = a;
        let b = g(a);
        proof {
            assert({
                &&& self.func.resolves_to(gv)
                &&& self.arg.resolves_to(av)
                &&& call_ensures(gv, (av,), b)
            });
        }
        b
    }
}

/// Combine a producer of a transform with a producer of a value; nothing
/// runs until the result is driven.
pub fn apply_deferred<B, PA: Deferred, PF: Deferred, G: FnOnce(PA::Output) -> B>(
    func: PF,
    arg: PA,
) -> (r: ApplyDeferred<PF, PA>) where PF: Deferred<Output = G>
    ensures
        r.func == func,
        r.arg == arg,
{
    ApplyDeferred { func, arg }
}

/// A one-shot consumer of values of type `X`.
pub trait Accept<X>: Sized {
    /// What consuming yields back (the unit type for a pure sink).
    type Output;

    /// When a value may be consumed.
    spec fn accept_pre(self, x: X) -> bool;

    /// The outcomes consuming `x` may yield.
    spec fn accept_rel(self, x: X, r: Self::Output) -> bool;

    /// Consume one value.
    fn accept(self, x: X) -> (r: Self::Output)
        requires
            self.accept_pre(x),
        ensures
            self.accept_rel(x, r),
    ;
}

/// A consumer wrapping a one-shot callable.
pub struct Sink<F> {
    /// The callable, invoked exactly once on the consumed value.
    pub f: F,
}

/// Wrap a one-argument callable as a consumer.
pub fn sink<X, R, F: FnOnce(X) -> R>(f: F) -> (r: Sink<F>)
    ensures
        r.f == f,
{
    Sink { f }
}

impl<X, R, F: FnOnce(X) -> R> Accept<X> for Sink<F> {
    type Output = R;

    open spec fn accept_pre(self, x: X) -> bool {
        call_requires(self.f, (x,))
    }

    open spec fn accept_rel(self, x: X, r: R) -> bool {
        call_ensures(self.f, (x,), r)
    }

    fn accept(self, x: X) -> (r: R) {
        (self.f)(x)
    }
}

/// A reverse-mapped consumer: converts each consumed value once, then
/// forwards it to the underlying consumer once, in that order.
pub struct AdaptedSink<S, G> {
    /// The underlying consumer, forwarded to exactly once per consumed
    /// value.
    pub sink: S,
    /// The conversion, applied exactly once per consumed value.
    pub convert: G,
}

impl<X, Y, S: Accept<Y>, G: FnOnce(X) -> Y> Accept<X> for AdaptedSink<S, G> {
    type Output = S::Output;

    open spec fn accept_pre(self, x: X) -> bool {
        &&& call_requires(self.convert, (x,))
        &&& forall|y: Y| call_ensures(self.convert, (x,), y) ==> self.sink.accept_pre(y)
    }

    open spec fn accept_rel(self, x: X, r: S::Output) -> bool {
        exists|y: Y|
            {
                &&& call_ensures(self.convert, (x,), y)
                &&& self.sink.accept_rel(y, r)
            }
    }

    fn accept(self, x: X) -> (r: S::Output) {
        let y = (self.convert)(x);
        let ghost yv = y;
        let r = self.sink.accept(y);
        proof {
            assert(call_ensures(self.convert, (x,), yv) && self.sink.accept_rel(yv, r));
        }
        r
    }
}

/// Reverse-map a consumer: the adapted consumer converts each value with
/// `convert` and forwards it, preserving invocation count and order.
pub fn contramap<X, Y, S: Accept<Y>, G: FnOnce(X) -> Y>(sink: S, convert: G) -> (r: AdaptedSink<
    S,
    G,
>)
    ensures
        r.sink == sink,
        r.convert == convert,
{
    AdaptedSink { sink, convert }
}

/// A consumer whose yielded result is transformed after consumption.
pub struct MappedCall<S, F> {
    /// The underlying consumer.
    pub sink: S,
    /// The transform, applied exactly once to what the consumer yields.
    pub transform: F,
}

impl<X, B, S: Accept<X>, F: FnOnce(S::Output) -> B> Accept<X> for MappedCall<S, F> {
    type Output = B;

    open spec fn accept_pre(self, x: X) -> bool {
        &&& self.sink.accept_pre(x)
        &&& forall|m: S::Output| self.sink.accept_rel(x, m) ==> call_requires(self.transform, (m,))
    }

    open spec fn accept_rel(self, x: X, r: B) -> bool {
        exists|m: S::Output|
            {
                &&& self.sink.accept_rel(x, m)
                &&& call_ensures(self.transform, (m,), r)
            }
    }

    fn accept(self, x: X) -> (r: B) {
        let m = self.sink.accept(x);
        let ghost mv = m;
        let r = (self.transform)(m);
        proof {
            assert(self.sink.accept_rel(x, mv) && call_ensures(self.transform, (mv,), r));
        }
        r
    }
}

/// Map what a consumer yields back: the transformed consumer consumes as
/// before and transforms the yielded result once.
pub fn call_fmap<X, B, S: Accept<X>, F: FnOnce(S::Output) -> B>(sink: S, transform: F) -> (r:
    MappedCall<S, F>)
    ensures
        r.sink == sink,
        r.transform == transform,
{
    MappedCall { sink, transform }
}

/// The canonical single-value callable: it ignores its input and yields
/// the wrapped value.
pub struct ConstCall<B> {
    /// The value yielded on the one call.
    pub value: B,
}

/// Wrap a plain value as a callable that yields it whatever it consumes.
pub fn call_pure<B>(value: B) -> (r: ConstCall<B>)
    ensures
        r.value == value,
{
    ConstCall { value }
}

impl<X, B> Accept<X> for ConstCall<B> {
    type Output = B;

    open spec fn accept_pre(self, x: X) -> bool {
        true
    }

    open spec fn accept_rel(self, x: X, r: B) -> bool {
        r == self.value
    }

    fn accept(self, x: X) -> (r: B) {
        self.value
    }
}

/// The applicative of the one-argument callable shapes: the input is
/// duplicated, the transform-yielding callable consumes it first, then the
/// value-yielding callable, then the transform is applied once.
pub struct ApplyCall<CF, CA> {
    /// The callable that yields the transform, consuming first.
    pub func: CF,
    /// The callable that yields the value, consuming second.
    pub arg: CA,
}

impl<X: Copy, B, CA: Accept<X>, CF: Accept<X>, G: FnOnce(CA::Output) -> B> Accept<X> for ApplyCall<
    CF,
    CA,
> where CF: Accept<X, Output = G> {
    type Output = B;

    open spec fn accept_pre(self, x: X) -> bool {
        &&& self.func.accept_pre(x)
        &&& self.arg.accept_pre(x)
        &&& forall|g: G, a: CA::Output|
            self.func.accept_rel(x, g) && self.arg.accept_rel(x, a) ==> #[trigger] call_requires(
                g,
                (a,),
            )
    }

    open spec fn accept_rel(self, x: X, r: B) -> bool {
        exists|g: G, a: CA::Output|
            {
                &&& self.func.accept_rel(x, g)
                &&& self.arg.accept_rel(x, a)
                &&& call_ensures(g, (a,), r)
            }
    }

    fn accept(self, x: X) -> (r: B) {
        let g = self.func.accept(x);
        let ghost gv = g;
        let a = self.arg.accept(x);
        let ghost av = a;
        let r = g(a);
        proof {
            assert({
                &&& self.func.accept_rel(x, gv)
                &&& self.arg.accept_rel(x, av)
                &&& call_ensures(gv, (av,), r)
            });
        }
        r
    }
}

/// Combine a transform-yielding callable with a value-yielding callable
/// over a duplicable input.
pub fn apply_call<X: Copy, B, CA: Accept<X>, CF: Accept<X>, G: FnOnce(CA::Output) -> B>(
    func: CF,
    arg: CA,
) -> (r: ApplyCall<CF, CA>) where CF: Accept<X, Output = G>
    ensures
        r.func == func,
        r.arg == arg,
{
    ApplyCall { func, arg }
}

/// Drive a producer, with its outcome stated over the wrapped callable
/// directly.
pub fn drive_thunk<A, F: FnOnce() -> A>(t: Thunk<F>) -> (a: A)
    requires
        call_requires(t.f, ()),
    ensures
        call_ensures(t.f, (), a),
{
    (t.f)()
}

/// Consume one value through a wrapped callable, with the outcome stated
/// over the callable directly.
pub fn accept_sink<X, R, F: FnOnce(X) -> R>(s: Sink<F>, x: X) -> (r: R)
    requires
        call_requires(s.f, (x,)),
    ensures
        call_ensures(s.f, (x,), r),
{
    (s.f)(x)
}

/// Consume one value through a reverse-mapped consumer, with the outcome
/// stated over the parts directly: exactly one conversion, forwarded
/// exactly once.
pub fn accept_adapted<X, Y, S: Accept<Y>, G: FnOnce(X) -> Y>(m: AdaptedSink<S, G>, x: X) -> (r:
    S::Output)
    requires
        call_requires(m.convert, (x,)),
        forall|y: Y| call_ensures(m.convert, (x,), y) ==> m.sink.accept_pre(y),
    ensures
        exists|y: Y|
            {
                &&& #[trigger] call_ensures(m.convert, (x,), y)
                &&& m.sink.accept_rel(y, r)
            },
{
    let ghost mv = m;
    let ghost xv = x;
    proof {
        lemma_adapted_sink_pre(mv, xv);
    }
    let r = m.accept(x);
    proof {
        lemma_adapted_sink_accepts(mv, xv, r);
    }
    r
}

// The spec functions of a trait implementation do not unfold at every use
// site; the lemmas below restate their definitions for callers.
/// The meaning of [`Thunk`]'s contract.
pub proof fn lemma_thunk_spec<A, F: FnOnce() -> A>(t: Thunk<F>, a: A)
    ensures
        t.pre() == call_requires(t.f, ()),
        t.resolves_to(a) == call_ensures(t.f, (), a),
{
}

/// The meaning of [`ApplyDeferred`]'s driving precondition.
pub proof fn lemma_apply_deferred_pre<B, PA: Deferred, PF: Deferred, G: FnOnce(PA::Output) -> B>(
    m: ApplyDeferred<PF, PA>,
) where PF: Deferred<Output = G>
    ensures
        m.pre() == {
            &&& m.func.pre()
            &&& m.arg.pre()
            &&& forall|g: G, a: PA::Output|
                m.func.resolves_to(g) && m.arg.resolves_to(a) ==> #[trigger] call_requires(
                    g,
                    (a,),
                )
        },
{
}

/// The meaning of [`ApplyDeferred`]'s resolution.
pub proof fn lemma_apply_deferred_resolves<
    B,
    PA: Deferred,
    PF: Deferred,
    G: FnOnce(PA::Output) -> B,
>(m: ApplyDeferred<PF, PA>, b: B) where PF: Deferred<Output = G>
    ensures
        m.resolves_to(b) == exists|g: G, a: PA::Output|
            {
                &&& m.func.resolves_to(g)
                &&& m.arg.resolves_to(a)
                &&& call_ensures(g, (a,), b)
            },
{
}

/// The meaning of [`Sink`]'s contract.
pub proof fn lemma_sink_spec<X, R, F: FnOnce(X) -> R>(s: Sink<F>, x: X, r: R)
    ensures
        s.accept_pre(x) == call_requires(s.f, (x,)),
        s.accept_rel(x, r) == call_ensures(s.f, (x,), r),
{
}

/// The meaning of [`AdaptedSink`]'s consuming precondition.
pub proof fn lemma_adapted_sink_pre<X, Y, S: Accept<Y>, G: FnOnce(X) -> Y>(
    m: AdaptedSink<S, G>,
    x: X,
)
    ensures
        m.accept_pre(x) == {
            &&& call_requires(m.convert, (x,))
            &&& forall|y: Y| call_ensures(m.convert, (x,), y) ==> m.sink.accept_pre(y)
        },
{
}

/// The meaning of [`AdaptedSink`]'s consuming outcome: one conversion,
/// forwarded once.
pub proof fn lemma_adapted_sink_accepts<X, Y, S: Accept<Y>, G: FnOnce(X) -> Y>(
    m: AdaptedSink<S, G>,
    x: X,
    r: S::Output,
)
    ensures
        m.accept_rel(x, r) == exists|y: Y|
            {
                &&& #[trigger] call_ensures(m.convert, (x,), y)
                &&& m.sink.accept_rel(y, r)
            },
{
}

/// The meaning of [`MappedCall`]'s contract.
pub proof fn lemma_mapped_call_spec<X, B, S: Accept<X>, F: FnOnce(S::Output) -> B>(
    m: MappedCall<S, F>,
    x: X,
    r: B,
)
    ensures
        m.accept_pre(x) == {
            &&& m.sink.accept_pre(x)
            &&& forall|mid: S::Output|
                m.sink.accept_rel(x, mid) ==> call_requires(m.transform, (mid,))
        },
        m.accept_rel(x, r) == exists|mid: S::Output|
            {
                &&& #[trigger] m.sink.accept_rel(x, mid)
                &&& call_ensures(m.transform, (mid,), r)
            },
{
}

/// The meaning of [`ApplyCall`]'s contract.
pub proof fn lemma_apply_call_spec<X: Copy, B, CA: Accept<X>, CF: Accept<X>, G: FnOnce(
    CA::Output,
) -> B>(m: ApplyCall<CF, CA>, x: X, r: B) where CF: Accept<X, Output = G>
    ensures
        m.accept_pre(x) == {
            &&& m.func.accept_pre(x)
            &&& m.arg.accept_pre(x)
            &&& forall|g: G, a: CA::Output|
                m.func.accept_rel(x, g) && m.arg.accept_rel(x, a) ==> #[trigger] call_requires(
                    g,
                    (a,),
                )
        },
        m.accept_rel(x, r) == exists|g: G, a: CA::Output|
            {
                &&& m.func.accept_rel(x, g)
                &&& m.arg.accept_rel(x, a)
                &&& call_ensures(g, (a,), r)
            },
{
}

} // verus!
