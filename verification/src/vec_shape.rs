//! The growable-sequence shape: held values in index order, `bind`
//! concatenates in input order without deduplication.

use vstd::prelude::*;

use crate::laws::lemma_flatten_singletons;
use crate::Monad;
use crate::MonadLaws;
use crate::MonadTyCon;

verus! {

/// The views of a sequence of containers, in the same order.
pub open spec fn vec_views<B>(ms: Seq<Vec<B>>) -> Seq<Seq<B>> {
    ms.map_values(|m: Vec<B>| m@)
}

/// Type constructor of the growable-sequence shape.
pub struct VecCon;

impl<T> MonadTyCon<T> for VecCon {
    type Outer = Vec<T>;
}

impl<A, B> Monad<A, B> for Vec<A> {
    type TyCon = VecCon;

    type ObsOut = Seq<B>;

    open spec fn held(self) -> Seq<A> {
        self@
    }

    open spec fn held_out(m: Vec<B>) -> Seq<B> {
        m@
    }

    open spec fn obs_out(m: Vec<B>) -> Seq<B> {
        m@
    }

    open spec fn reshaped(self, vm: Seq<B>, r: Vec<B>) -> bool {
        r@ == vm
    }

    open spec fn flat_of(self, inners: Seq<Vec<B>>, r: Vec<B>) -> bool {
        r@ == vec_views(inners).flatten()
    }

    proof fn lemma_reshaped_held(self, vm: Seq<B>, r: Vec<B>) {
    }

    proof fn lemma_map_via_bind(self, vm: Seq<B>, inners: Seq<Vec<B>>, r: Vec<B>) {
        let views = vec_views(inners);
        assert forall|i: int| 0 <= i < views.len() implies (#[trigger] views[i]).len() == 1
            && views[i][0] == vm[i] by {
            assert(views[i] == inners[i]@);
        }
        lemma_flatten_singletons(views, vm);
    }

    proof fn lemma_bind_of_wrap(self, m: Vec<B>, r: Vec<B>) {
        let views = vec_views(Seq::empty().push(m));
        assert(views =~= seq![m@]);
        views.lemma_flatten_one_element();
        assert(views.flatten() == m@);
    }

    fn fmap<F: Fn(A) -> B>(self, f: F) -> (r: Vec<B>) {
        let ghost s = self;
        let ghost orig = self@;
        let mut input = self;
        let mut r: Vec<B> = Vec::new();
        proof {
            assert(<Vec<A> as Monad<A, B>>::held(s) == orig);
        }
        while input.len() > 0
            invariant
                r@.len() + input@.len() == orig.len(),
                input@ == orig.subrange(r@.len() as int, orig.len() as int),
                forall|i: int| 0 <= i < orig.len() ==> call_requires(f, (orig[i],)),
                forall|i: int| 0 <= i < r@.len() ==> call_ensures(f, (orig[i],), #[trigger] r@[i]),
            decreases input@.len(),
        {
            let ghost k = r@.len() as int;
            let x = input.remove(0);
            proof {
                assert(x == orig[k]);
            }
            let y = f(x);
            r.push(y);
            proof {
                assert(input@ =~= orig.subrange(r@.len() as int, orig.len() as int));
            }
        }
        proof {
            let vm = r@;
            assert(vm.len() == <Vec<A> as Monad<A, B>>::held(s).len());
            assert(s.reshaped(vm, r));
        }
        r
    }

    fn pure(b: B) -> (r: Vec<B>) {
        let mut r: Vec<B> = Vec::new();
        r.push(b);
        r
    }

    fn bind<F: Fn(A) -> Vec<B>>(self, f: F) -> (r: Vec<B>) {
        let ghost s = self;
        let ghost orig = self@;
        let mut input = self;
        let mut r: Vec<B> = Vec::new();
        let ghost mut inners: Seq<Vec<B>> = Seq::empty();
        proof {
            assert(<Vec<A> as Monad<A, B>>::held(s) == orig);
            assert(r@ =~= vec_views(inners).flatten());
        }
        while input.len() > 0
            invariant
                inners.len() + input@.len() == orig.len(),
                input@ == orig.subrange(inners.len() as int, orig.len() as int),
                forall|i: int| 0 <= i < orig.len() ==> call_requires(f, (orig[i],)),
                forall|i: int|
                    0 <= i < inners.len() ==> call_ensures(f, (orig[i],), #[trigger] inners[i]),
                r@ == vec_views(inners).flatten(),
            decreases input@.len(),
        {
            let ghost k = inners.len() as int;
            let x = input.remove(0);
            proof {
                assert(x == orig[k]);
            }
            let mut m = f(x);
            let ghost mv = m;
            r.append(&mut m);
            proof {
                let old_views = vec_views(inners);
                inners = inners.push(mv);
                assert(vec_views(inners) =~= old_views.push(mv@));
                old_views.lemma_flatten_push(mv@);
                assert(input@ =~= orig.subrange(inners.len() as int, orig.len() as int));
            }
        }
        proof {
            assert(inners.len() == <Vec<A> as Monad<A, B>>::held(s).len());
            assert(s.flat_of(inners, r));
        }
        r
    }
}

impl<A> MonadLaws<A> for Vec<A> {
    proof fn lemma_held_agree(m: Self) {
    }

    proof fn lemma_reshaped_identity(self, r: Self) {
    }
}

} // verus!
