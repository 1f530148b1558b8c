//! Combinators derived from `pure` and `bind` alone, and the monad laws
//! stated generically over every [`Monad`] shape.

use vstd::prelude::*;

use crate::Monad;
use crate::MonadLaws;
use crate::MonadTyCon;

verus! {

/// Mapping derived from `bind` and `pure`: feed every held value to a step
/// that wraps the transformed value.  Observably identical to a direct
/// mapping: the result is exactly a reshape of the input.
pub fn monad_fmap<A, B, M: Monad<A, B>, F: Copy + Fn(A) -> B>(m: M, f: F) -> (r: <M::TyCon as MonadTyCon<
    B,
>>::Outer)
    requires
        forall|i: int| 0 <= i < m.held().len() ==> call_requires(f, (m.held()[i],)),
    ensures
        exists|vm: Seq<B>|
            {
                &&& vm.len() == m.held().len()
                &&& forall|i: int|
                    0 <= i < vm.len() ==> call_ensures(f, (m.held()[i],), #[trigger] vm[i])
                &&& m.reshaped(vm, r)
            },
{
    let ghost held = m.held();
    let step = move |x: A| -> (mb: <M::TyCon as MonadTyCon<B>>::Outer)
        requires
            call_requires(f, (x,)),
        ensures
            exists|y: B|
                {
                    &&& call_ensures(f, (x,), y)
                    &&& M::held_out(mb).len() == 1
                    &&& M::held_out(mb)[0] == y
                },
        {
            let y = f(x);
            <M as Monad<A, B>>::pure(y)
        };
    let r = m.bind(step);
    proof {
        let inners = choose|inners: Seq<<M::TyCon as MonadTyCon<B>>::Outer>|
            {
                &&& inners.len() == held.len()
                &&& forall|i: int|
                    0 <= i < inners.len() ==> call_ensures(step, (held[i],), #[trigger] inners[i])
                &&& m.flat_of(inners, r)
            };
        let vm = Seq::new(
            held.len(),
            |i: int|
                choose|y: B|
                    {
                        &&& call_ensures(f, (held[i],), y)
                        &&& M::held_out(inners[i]).len() == 1
                        &&& M::held_out(inners[i])[0] == y
                    },
        );
        assert forall|i: int| 0 <= i < vm.len() implies call_ensures(f, (held[i],), #[trigger] vm[i])
            && M::held_out(inners[i]).len() == 1 && M::held_out(inners[i])[0] == vm[i] by {
            assert(call_ensures(step, (held[i],), inners[i]));
        }
        m.lemma_map_via_bind(vm, inners, r);
    }
    r
}

/// Flatten one level of nesting: a container of same-shape containers
/// becomes the in-order concatenation of the inner containers, derived as
/// `bind` with the identity step.
pub fn mjoin<A, M, MM>(mm: MM) -> (r: M) where
    MM: Monad<M, A>,
    <MM as Monad<M, A>>::TyCon: MonadTyCon<A, Outer = M>,

    ensures
        mm.flat_of(mm.held(), r),
{
    let ghost held = mm.held();
    let step = |x: M| -> (mb: M)
        ensures
            mb == x,
        {
            x
        };
    let r = mm.bind(step);
    proof {
        let inners = choose|inners: Seq<M>|
            {
                &&& inners.len() == held.len()
                &&& forall|i: int|
                    0 <= i < inners.len() ==> call_ensures(step, (held[i],), #[trigger] inners[i])
                &&& mm.flat_of(inners, r)
            };
        assert forall|i: int| 0 <= i < inners.len() implies inners[i] == held[i] by {
            assert(call_ensures(step, (held[i],), inners[i]));
        }
        assert(inners =~= held);
    }
    r
}

/// Identity law, for every shape: a transform that returns every held
/// value unchanged yields an observably equal container.
pub proof fn lemma_monad_identity<A, M: MonadLaws<A>>(m: M, vm: Seq<A>, r: M)
    requires
        vm.len() == m.held().len(),
        forall|i: int| 0 <= i < vm.len() ==> vm[i] == m.held()[i],
        m.reshaped(vm, r),
    ensures
        M::obs_out(r) == M::obs_out(m),
{
    assert(vm =~= m.held());
    m.lemma_reshaped_identity(r);
}

/// Wrap-then-bind law, for every shape: binding a canonical single-value
/// container substitutes the step's result, observably unchanged.
pub proof fn lemma_monad_left_identity<A, M: MonadLaws<A>>(u: M, b: A, inner: M, r: M)
    requires
        u.held() == seq![b],
        u.flat_of(seq![inner], r),
    ensures
        M::obs_out(r) == M::obs_out(inner),
{
    assert(Seq::empty().push(inner) =~= seq![inner]);
    u.lemma_bind_of_wrap(inner, r);
}

/// Bind-then-wrap law, for every shape: binding with a step that wraps
/// every held value yields an observably equal container.
pub proof fn lemma_monad_right_identity<A, M: MonadLaws<A>>(m: M, inners: Seq<M>, r: M)
    requires
        inners.len() == m.held().len(),
        forall|i: int|
            0 <= i < inners.len() ==> M::held_out(#[trigger] inners[i]) == seq![m.held()[i]],
        m.flat_of(inners, r),
    ensures
        M::obs_out(r) == M::obs_out(m),
{
    assert forall|i: int| 0 <= i < inners.len() implies M::held_out(#[trigger] inners[i]).len() == 1
        && M::held_out(inners[i])[0] == m.held()[i] by {
        assert(M::held_out(inners[i]) == seq![m.held()[i]]);
    }
    m.lemma_map_via_bind(m.held(), inners, r);
    m.lemma_reshaped_identity(r);
}

} // verus!
