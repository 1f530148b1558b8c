//! The double-ended-queue shape: held values in front-to-back order,
//! `bind` concatenates in input order without deduplication.

use vstd::prelude::*;

use crate::laws::lemma_flatten_singletons;
use crate::Monad;
use crate::MonadLaws;
use crate::MonadTyCon;

verus! {

/// The views of a sequence of queues, in the same order.
pub open spec fn deque_views<B>(ms: Seq<std::collections::VecDeque<B>>) -> Seq<Seq<B>> {
    ms.map_values(|m: std::collections::VecDeque<B>| m@)
}

/// Type constructor of the double-ended-queue shape.
pub struct VecDequeCon;

impl<T> MonadTyCon<T> for VecDequeCon {
    type Outer = std::collections::VecDeque<T>;
}

impl<A, B> Monad<A, B> for std::collections::VecDeque<A> {
    type TyCon = VecDequeCon;

    type ObsOut = Seq<B>;

    open spec fn held(self) -> Seq<A> {
        self@
    }

    open spec fn held_out(m: std::collections::VecDeque<B>) -> Seq<B> {
        m@
    }

    open spec fn obs_out(m: std::collections::VecDeque<B>) -> Seq<B> {
        m@
    }

    open spec fn reshaped(self, vm: Seq<B>, r: std::collections::VecDeque<B>) -> bool {
        r@ == vm
    }

    open spec fn flat_of(
        self,
        inners: Seq<std::collections::VecDeque<B>>,
        r: std::collections::VecDeque<B>,
    ) -> bool {
        r@ == deque_views(inners).flatten()
    }

    proof fn lemma_reshaped_held(self, vm: Seq<B>, r: std::collections::VecDeque<B>) {
    }

    proof fn lemma_map_via_bind(
        self,
        vm: Seq<B>,
        inners: Seq<std::collections::VecDeque<B>>,
        r: std::collections::VecDeque<B>,
    ) {
        let views = deque_views(inners);
        assert forall|i: int| 0 <= i < views.len() implies (#[trigger] views[i]).len() == 1
            && views[i][0] == vm[i] by {
            assert(views[i] == inners[i]@);
        }
        lemma_flatten_singletons(views, vm);
    }

    proof fn lemma_bind_of_wrap(
        self,
        m: std::collections::VecDeque<B>,
        r: std::collections::VecDeque<B>,
    ) {
        let views = deque_views(Seq::empty().push(m));
        assert(views =~= seq![m@]);
        views.lemma_flatten_one_element();
        assert(views.flatten() == m@);
    }

    fn fmap<F: Fn(A) -> B>(self, f: F) -> (r: std::collections::VecDeque<B>) {
        let ghost s = self;
        let ghost orig = self@;
        let mut input = self;
        let mut r: std::collections::VecDeque<B> = std::collections::VecDeque::new();
        proof {
            assert(<std::collections::VecDeque<A> as Monad<A, B>>::held(s) == orig);
        }
        while input.len() > 0
            invariant
                r@.len() + input@.len() == orig.len(),
                input@ == orig.subrange(r@.len() as int, orig.len() as int),
                forall|i: int| 0 <= i < orig.len() ==> call_requires(f, (orig[i],)),
                forall|i: int| 0 <= i < r@.len() ==> call_ensures(f, (orig[i],), #[trigger] r@[i]),
            decreases input@.len(),
        {
            let ghost k = r@.len() as int;
            match input.pop_front() {
                Option::Some(x) => {
                    proof {
                        assert(x == orig[k]);
                    }
                    let y = f(x);
                    r.push_back(y);
                    proof {
                        assert(input@ =~= orig.subrange(r@.len() as int, orig.len() as int));
                    }
                },
                Option::None => {
                    proof {
                        assert(false);
                    }
                },
            }
        }
        proof {
            let vm = r@;
            assert(vm.len() == <std::collections::VecDeque<A> as Monad<A, B>>::held(s).len());
            assert(s.reshaped(vm, r));
        }
        r
    }

    fn pure(b: B) -> (r: std::collections::VecDeque<B>) {
        let mut r: std::collections::VecDeque<B> = std::collections::VecDeque::with_capacity(1);
        r.push_back(b);
        r
    }

    fn bind<F: Fn(A) -> std::collections::VecDeque<B>>(self, f: F) -> (r:
        std::collections::VecDeque<B>) {
        let ghost s = self;
        let ghost orig = self@;
        let mut input = self;
        let mut r: std::collections::VecDeque<B> = std::collections::VecDeque::new();
        let ghost mut inners: Seq<std::collections::VecDeque<B>> = Seq::empty();
        proof {
            assert(<std::collections::VecDeque<A> as Monad<A, B>>::held(s) == orig);
            assert(r@ =~= deque_views(inners).flatten());
        }
        while input.len() > 0
            invariant
                inners.len() + input@.len() == orig.len(),
                input@ == orig.subrange(inners.len() as int, orig.len() as int),
                forall|i: int| 0 <= i < orig.len() ==> call_requires(f, (orig[i],)),
                forall|i: int|
                    0 <= i < inners.len() ==> call_ensures(f, (orig[i],), #[trigger] inners[i]),
                r@ == deque_views(inners).flatten(),
            decreases input@.len(),
        {
            let ghost k = inners.len() as int;
            match input.pop_front() {
                Option::Some(x) => {
                    proof {
                        assert(x == orig[k]);
                    }
                    let mut m = f(x);
                    let ghost mv = m;
                    r.append(&mut m);
                    proof {
                        let old_views = deque_views(inners);
                        inners = inners.push(mv);
                        assert(deque_views(inners) =~= old_views.push(mv@));
                        old_views.lemma_flatten_push(mv@);
                        assert(input@ =~= orig.subrange(inners.len() as int, orig.len() as int));
                    }
                },
                Option::None => {
                    proof {
                        assert(false);
                    }
                },
            }
        }
        proof {
            assert(inners.len() == <std::collections::VecDeque<A> as Monad<A, B>>::held(s).len());
            assert(s.flat_of(inners, r));
        }
        r
    }
}

impl<A> MonadLaws<A> for std::collections::VecDeque<A> {
    proof fn lemma_held_agree(m: Self) {
    }

    proof fn lemma_reshaped_identity(self, r: Self) {
    }
}

} // verus!
