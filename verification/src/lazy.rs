//! The lazily-produced sequence shape: a pull-based sequence that hands
//! out one element per pull.
//!
//! Binding a lazy sequence is itself lazy: pulling the next output pulls
//! from the current inner sequence until it is exhausted, then pulls the
//! next outer element and calls the step on it, once per outer element and
//! only when needed.  No more than one element of look-ahead is ever
//! buffered.

use vstd::prelude::*;

verus! {

/// A pull-based sequence.
///
/// `emitted` is the history of elements handed out so far; `yields` and
/// `exhausted` say exactly, per shape, what one pull does.
pub trait Pull: Sized {
    /// The element type.
    type Item;

    /// Well-formedness of the source's state.
    spec fn inv(self) -> bool;

    /// The elements handed out so far, in order.
    spec fn emitted(self) -> Seq<Self::Item>;

    /// An upper bound on the pulls still to come; pulls that yield strictly
    /// decrease it.
    spec fn pending(self) -> nat;

    /// Exact meaning of "one pull yielded `x` and left the source in state
    /// `s2`".
    spec fn yields(self, x: Self::Item, s2: Self) -> bool;

    /// Exact meaning of "one pull found the source exhausted, leaving it in
    /// state `s2`".
    spec fn exhausted(self, s2: Self) -> bool;

    /// A yielding pull appends the element to the history and makes
    /// progress.
    proof fn lemma_yields_emitted(self, x: Self::Item, s2: Self)
        requires
            self.inv(),
            self.yields(x, s2),
        ensures
            s2.inv(),
            s2.emitted() == self.emitted().push(x),
            s2.pending() < self.pending(),
    ;

    /// An exhausted pull changes nothing and nothing is left to come.
    proof fn lemma_exhausted_emitted(self, s2: Self)
        requires
            self.inv(),
            self.exhausted(s2),
        ensures
            s2.inv(),
            s2.emitted() == self.emitted(),
            s2.pending() == 0,
    ;

    /// Pull the next element, if any.
    fn next(&mut self) -> (r: Option<Self::Item>)
        requires
            old(self).inv(),
        ensures
            match r {
                Option::Some(x) => old(self).yields(x, *final(self)),
                Option::None => old(self).exhausted(*final(self)),
            },
    ;
}

/// The canonical lazy sequence: pulls hand out the elements of a
/// materialized sequence, in order.
pub struct LazySeq<A> {
    elems: Vec<A>,
    taken: Ghost<Seq<A>>,
}

impl<A> LazySeq<A> {
    /// The elements still to be handed out, in order.
    pub closed spec fn remaining(self) -> Seq<A> {
        self.elems@
    }

    /// Wrap a plain sequence as a lazy sequence over its elements.
    pub fn new(elems: Vec<A>) -> (r: LazySeq<A>)
        ensures
            r.remaining() == elems@,
            r.emitted() == Seq::<A>::empty(),
    {
        LazySeq { elems, taken: Ghost(Seq::empty()) }
    }

    /// The canonical one-element lazy sequence.
    pub fn pure(b: A) -> (r: LazySeq<A>)
        ensures
            r.remaining() =~= seq![b],
            r.emitted() == Seq::<A>::empty(),
    {
        let mut v: Vec<A> = Vec::new();
        v.push(b);
        LazySeq { elems: v, taken: Ghost(Seq::empty()) }
    }
}

impl<A> Pull for LazySeq<A> {
    type Item = A;

    open spec fn inv(self) -> bool {
        true
    }

    closed spec fn emitted(self) -> Seq<A> {
        self.taken@
    }

    closed spec fn pending(self) -> nat {
        self.elems@.len()
    }

    open spec fn yields(self, x: A, s2: Self) -> bool {
        &&& self.remaining().len() > 0
        &&& x == self.remaining()[0]
        &&& s2.remaining() == self.remaining().drop_first()
        &&& s2.emitted() == self.emitted().push(x)
    }

    open spec fn exhausted(self, s2: Self) -> bool {
        &&& self.remaining().len() == 0
        &&& s2 == self
    }

    proof fn lemma_yields_emitted(self, x: A, s2: Self) {
    }

    proof fn lemma_exhausted_emitted(self, s2: Self) {
    }

    fn next(&mut self) -> (r: Option<A>) {
        if self.elems.len() > 0 {
            let x = self.elems.remove(0);
            proof {
                self.taken = Ghost(self.taken@.push(x));
                assert(self.elems@ =~= old(self).elems@.drop_first());
            }
            Option::Some(x)
        } else {
            Option::None
        }
    }
}

/// A lazily mapped sequence: each pull pulls one element from the source
/// and transforms it; the transform runs only when an element is pulled.
pub struct MappedSeq<S, F, B> {
    /// The source of elements.
    pub source: S,
    /// The transform, applied once per pulled element.
    pub transform: F,
    /// History of transformed elements handed out.
    pub hist: Ghost<Seq<B>>,
}

/// Lazily map a pull-based sequence; nothing runs until elements are
/// pulled.
pub fn lazy_fmap<B, S: Pull, F: Fn(S::Item) -> B>(source: S, transform: F) -> (r: MappedSeq<
    S,
    F,
    B,
>)
    requires
        source.inv(),
        source.emitted() == Seq::<S::Item>::empty(),
        forall|a: S::Item| call_requires(transform, (a,)),
    ensures
        r.inv(),
        r.source == source,
        r.transform == transform,
        r.emitted() == Seq::<B>::empty(),
{
    MappedSeq { source, transform, hist: Ghost(Seq::empty()) }
}

impl<B, S: Pull, F: Fn(S::Item) -> B> Pull for MappedSeq<S, F, B> {
    type Item = B;

    open spec fn inv(self) -> bool {
        &&& self.source.inv()
        &&& self.hist@.len() == self.source.emitted().len()
        &&& forall|i: int|
            0 <= i < self.hist@.len() ==> call_ensures(
                self.transform,
                (self.source.emitted()[i],),
                #[trigger] self.hist@[i],
            )
        &&& forall|a: S::Item| call_requires(self.transform, (a,))
    }

    open spec fn emitted(self) -> Seq<B> {
        self.hist@
    }

    open spec fn pending(self) -> nat {
        self.source.pending()
    }

    open spec fn yields(self, x: B, s2: Self) -> bool {
        &&& exists|a: S::Item|
            {
                &&& #[trigger] self.source.yields(a, s2.source)
                &&& call_ensures(self.transform, (a,), x)
            }
        &&& s2.transform == self.transform
        &&& s2.hist@ == self.hist@.push(x)
    }

    open spec fn exhausted(self, s2: Self) -> bool {
        &&& self.source.exhausted(s2.source)
        &&& s2.transform == self.transform
        &&& s2.hist@ == self.hist@
    }

    proof fn lemma_yields_emitted(self, x: B, s2: Self) {
        let a = choose|a: S::Item|
            #[trigger] self.source.yields(a, s2.source) && call_ensures(self.transform, (a,), x);
        self.source.lemma_yields_emitted(a, s2.source);
    }

    proof fn lemma_exhausted_emitted(self, s2: Self) {
        self.source.lemma_exhausted_emitted(s2.source);
    }

    fn next(&mut self) -> (r: Option<B>) {
        let ghost pre = *self;
        match self.source.next() {
            Option::Some(a) => {
                proof {
                    pre.source.lemma_yields_emitted(a, self.source);
                }
                let x = (self.transform)(a);
                proof {
                    self.hist = Ghost(self.hist@.push(x));
                    assert(pre.source.yields(a, self.source) && call_ensures(
                        self.transform,
                        (a,),
                        x,
                    ));
                    assert(pre.yields(x, *self));
                }
                Option::Some(x)
            },
            Option::None => {
                proof {
                    pre.source.lemma_exhausted_emitted(self.source);
                    assert(pre.exhausted(*self));
                }
                Option::None
            },
        }
    }
}

/// The meaning of [`MappedSeq`]'s state spec functions.  A spec function
/// of a trait implementation does not unfold at every use site; these
/// equalities restate the definitions for callers.
pub proof fn lemma_mapped_seq_state<B, S: Pull, F: Fn(S::Item) -> B>(m: MappedSeq<S, F, B>)
    ensures
        m.emitted() == m.hist@,
        m.pending() == m.source.pending(),
        m.inv() == {
            &&& m.source.inv()
            &&& m.hist@.len() == m.source.emitted().len()
            &&& forall|i: int|
                0 <= i < m.hist@.len() ==> call_ensures(
                    m.transform,
                    (m.source.emitted()[i],),
                    #[trigger] m.hist@[i],
                )
            &&& forall|a: S::Item| call_requires(m.transform, (a,))
        },
{
}

/// The meaning of one pull on a [`MappedSeq`]: the source yielded an
/// element and the transform turned it into the output.
pub proof fn lemma_mapped_seq_yields<B, S: Pull, F: Fn(S::Item) -> B>(
    m: MappedSeq<S, F, B>,
    x: B,
    s2: MappedSeq<S, F, B>,
)
    ensures
        m.yields(x, s2) == {
            &&& exists|a: S::Item|
                {
                    &&& #[trigger] m.source.yields(a, s2.source)
                    &&& call_ensures(m.transform, (a,), x)
                }
            &&& s2.transform == m.transform
            &&& s2.hist@ == m.hist@.push(x)
        },
        m.exhausted(s2) == {
            &&& m.source.exhausted(s2.source)
            &&& s2.transform == m.transform
            &&& s2.hist@ == m.hist@
        },
{
}

/// The views of a sequence of lazy sequences as handed out by a step, in
/// order.
pub open spec fn lazy_views<B>(ms: Seq<LazySeq<B>>) -> Seq<Seq<B>> {
    ms.map_values(|m: LazySeq<B>| m.remaining())
}

/// `s1` is reached from `s0` by pulling exactly the elements of `pulled`,
/// in order.
pub open spec fn reached_by_pulls<S: Pull>(s0: S, pulled: Seq<S::Item>, s1: S) -> bool
    decreases pulled.len(),
{
    if pulled.len() == 0 {
        s1 == s0
    } else {
        exists|mid: S| #[trigger] s0.yields(pulled[0], mid) && reached_by_pulls(
            mid,
            pulled.drop_first(),
            s1,
        )
    }
}

/// Extending a pull run by one more yielding pull.
pub proof fn lemma_reached_by_pulls_step<S: Pull>(s0: S, pulled: Seq<S::Item>, s1: S, x: S::Item, s2: S)
    requires
        reached_by_pulls(s0, pulled, s1),
        s1.yields(x, s2),
    ensures
        reached_by_pulls(s0, pulled.push(x), s2),
    decreases pulled.len(),
{
    if pulled.len() == 0 {
        assert(pulled.push(x)[0] == x);
        assert(pulled.push(x).drop_first() =~= Seq::empty());
        assert(s0.yields(pulled.push(x)[0], s2));
        assert(reached_by_pulls(s2, pulled.push(x).drop_first(), s2));
    } else {
        let mid = choose|mid: S| #[trigger] s0.yields(pulled[0], mid) && reached_by_pulls(
            mid,
            pulled.drop_first(),
            s1,
        );
        lemma_reached_by_pulls_step(mid, pulled.drop_first(), s1, x, s2);
        assert(pulled.push(x)[0] == pulled[0]);
        assert(pulled.push(x).drop_first() =~= pulled.drop_first().push(x));
        assert(s0.yields(pulled.push(x)[0], mid));
    }
}

/// A pull run hands out exactly the pulled elements, in order, appended to
/// the history.
pub proof fn lemma_reached_pulls_emitted<S: Pull>(s0: S, pulled: Seq<S::Item>, s1: S)
    requires
        s0.inv(),
        reached_by_pulls(s0, pulled, s1),
    ensures
        s1.inv(),
        s1.emitted() == s0.emitted() + pulled,
    decreases pulled.len(),
{
    if pulled.len() == 0 {
        assert(s1.emitted() =~= s0.emitted() + pulled);
    } else {
        let mid = choose|mid: S| #[trigger] s0.yields(pulled[0], mid) && reached_by_pulls(
            mid,
            pulled.drop_first(),
            s1,
        );
        s0.lemma_yields_emitted(pulled[0], mid);
        lemma_reached_pulls_emitted(mid, pulled.drop_first(), s1);
        assert(s1.emitted() =~= s0.emitted() + pulled);
    }
}

/// A pull run out of the canonical lazy sequence pulls exactly a prefix of
/// what it had left.
pub proof fn lemma_lazy_seq_pulls<A>(s0: LazySeq<A>, pulled: Seq<A>, s1: LazySeq<A>)
    requires
        reached_by_pulls(s0, pulled, s1),
    ensures
        pulled.len() <= s0.remaining().len(),
        pulled == s0.remaining().take(pulled.len() as int),
        s1.remaining() == s0.remaining().skip(pulled.len() as int),
        s1.emitted() == s0.emitted() + pulled,
    decreases pulled.len(),
{
    if pulled.len() == 0 {
        assert(pulled =~= s0.remaining().take(0));
        assert(s1.remaining() =~= s0.remaining().skip(0));
        assert(s1.emitted() =~= s0.emitted() + pulled);
    } else {
        let mid = choose|mid: LazySeq<A>|
            #[trigger] s0.yields(pulled[0], mid) && reached_by_pulls(mid, pulled.drop_first(), s1);
        lemma_lazy_seq_pulls(mid, pulled.drop_first(), s1);
        let n = pulled.len() as int;
        assert(mid.remaining() =~= s0.remaining().drop_first());
        assert forall|i: int| 0 <= i < n implies pulled[i] == s0.remaining().take(n)[i] by {
            if i > 0 {
                assert(pulled.drop_first()[i - 1] == mid.remaining().take(n - 1)[i - 1]);
                assert(mid.remaining()[i - 1] == s0.remaining()[i]);
            }
        }
        assert(pulled =~= s0.remaining().take(n));
        assert(s1.remaining() =~= s0.remaining().skip(pulled.len() as int));
        assert(s1.emitted() =~= s0.emitted() + pulled);
    }
}

/// A lazily bound sequence: the step is called once per outer element, and
/// only when the current inner sequence is exhausted and another output
/// element is demanded.
pub struct BoundSeq<S, G, B> {
    /// The outer source of elements.
    pub source: S,
    /// The step, called once per pulled outer element.
    pub step: G,
    /// The current inner sequence.
    pub inner: LazySeq<B>,
    /// The inner sequences obtained so far, as returned by the step.
    pub got: Ghost<Seq<LazySeq<B>>>,
    /// History of output elements handed out.
    pub hist: Ghost<Seq<B>>,
}

impl<A, B, S: Pull<Item = A>, G: Fn(A) -> LazySeq<B>> BoundSeq<S, G, B> {
    /// Well-formedness: the history plus what is left of the current inner
    /// sequence is exactly the in-order flattening of the inner sequences
    /// the step handed out, one per pulled outer element.
    pub open spec fn inv(self) -> bool {
        &&& self.source.inv()
        &&& forall|a: A| call_requires(self.step, (a,))
        &&& self.got@.len() == self.source.emitted().len()
        &&& forall|i: int|
            0 <= i < self.got@.len() ==> call_ensures(
                self.step,
                (self.source.emitted()[i],),
                #[trigger] self.got@[i],
            )
        &&& self.hist@ + self.inner.remaining() == lazy_views(self.got@).flatten()
    }

    /// Pull the next output element: from the current inner sequence if it
    /// has one; otherwise pull outer elements, calling the step once on
    /// each, until an inner sequence yields or the outer source is
    /// exhausted.  While the current inner sequence still has elements, the
    /// outer source is left untouched and the step is not called.
    pub fn next(&mut self) -> (r: Option<B>)
        requires
            old(self).inv(),
        ensures
            final(self).inv(),
            final(self).step == old(self).step,
            match r {
                Option::Some(x) => final(self).hist@ == old(self).hist@.push(x),
                Option::None => {
                    &&& final(self).hist@ == old(self).hist@
                    &&& final(self).hist@ == lazy_views(final(self).got@).flatten()
                    &&& final(self).source.pending() == 0
                    &&& final(self).inner.remaining().len() == 0
                },
            },
            old(self).inner.remaining().len() > 0 ==> {
                &&& final(self).source == old(self).source
                &&& final(self).got@ == old(self).got@
                &&& r == Option::Some(old(self).inner.remaining()[0])
            },
            match r {
                Option::Some(_) => exists|pulled: Seq<A>|
                    #[trigger] reached_by_pulls(old(self).source, pulled, final(self).source),
                Option::None => exists|pulled: Seq<A>, mid: S|
                    {
                        &&& #[trigger] reached_by_pulls(old(self).source, pulled, mid)
                        &&& mid.exhausted(final(self).source)
                    },
            },
    {
        let ghost mut pulled: Seq<A> = Seq::empty();
        loop
            invariant
                self.inv(),
                self.step == old(self).step,
                self.hist@ == old(self).hist@,
                reached_by_pulls(old(self).source, pulled, self.source),
                old(self).inner.remaining().len() > 0 ==> {
                    &&& self.source == old(self).source
                    &&& self.got@ == old(self).got@
                    &&& self.inner == old(self).inner
                },
            decreases self.source.pending(),
        {
            let ghost pre_inner = self.inner;
            match self.inner.next() {
                Option::Some(x) => {
                    proof {
                        self.hist = Ghost(self.hist@.push(x));
                        assert(self.hist@ + self.inner.remaining() =~= old(self).hist@
                            + pre_inner.remaining());
                    }
                    return Option::Some(x);
                },
                Option::None => {
                    let ghost pre_source = self.source;
                    match self.source.next() {
                        Option::Some(a) => {
                            proof {
                                pre_source.lemma_yields_emitted(a, self.source);
                                lemma_reached_by_pulls_step(
                                    old(self).source,
                                    pulled,
                                    pre_source,
                                    a,
                                    self.source,
                                );
                                pulled = pulled.push(a);
                            }
                            let ls = (self.step)(a);
                            proof {
                                let old_views = lazy_views(self.got@);
                                self.got = Ghost(self.got@.push(ls));
                                assert(lazy_views(self.got@) =~= old_views.push(ls.remaining()));
                                old_views.lemma_flatten_push(ls.remaining());
                            }
                            self.inner = ls;
                        },
                        Option::None => {
                            proof {
                                pre_source.lemma_exhausted_emitted(self.source);
                                assert(self.hist@ =~= lazy_views(self.got@).flatten());
                            }
                            return Option::None;
                        },
                    }
                },
            }
        }
    }
}

/// Lazily bind a pull-based sequence with a step that produces a lazy
/// sequence per element.  Building the bound sequence calls nothing; the
/// step runs only as outputs are pulled, once per outer element.
pub fn lazy_bind<A, B, S: Pull<Item = A>, G: Fn(A) -> LazySeq<B>>(source: S, step: G) -> (r:
    BoundSeq<S, G, B>)
    requires
        source.inv(),
        source.emitted() == Seq::<A>::empty(),
        forall|a: A| call_requires(step, (a,)),
    ensures
        r.inv(),
        r.source == source,
        r.step == step,
        r.hist@ == Seq::<B>::empty(),
        r.inner.remaining().len() == 0,
{
    let inner = LazySeq::new(Vec::new());
    let r = BoundSeq { source, step, inner, got: Ghost(Seq::empty()), hist: Ghost(Seq::empty()) };
    proof {
        assert(lazy_views(r.got@) =~= Seq::<Seq<B>>::empty());
        assert(r.hist@ + r.inner.remaining() =~= lazy_views(r.got@).flatten());
    }
    r
}

} // verus!
