//! The linked-list shape: a list that keeps insertion order, with pushing
//! and popping at the ends.  Held values are modeled as the sequence of
//! elements in front-to-back order.

use vstd::prelude::*;

use crate::laws::lemma_flatten_singletons;
use crate::Monad;
use crate::MonadLaws;
use crate::MonadTyCon;

verus! {

/// A list that keeps its elements in insertion order.
#[derive(Clone, PartialEq, Eq, Debug)]
pub struct LinkedList<T> {
    elems: Vec<T>,
}

impl<T> View for LinkedList<T> {
    type V = Seq<T>;

    closed spec fn view(&self) -> Seq<T> {
        self.elems@
    }
}

impl<T> LinkedList<T> {
    /// The empty list.
    pub fn new() -> (r: LinkedList<T>)
        ensures
            r@ == Seq::<T>::empty(),
    {
        LinkedList { elems: Vec::new() }
    }

    /// Number of elements in the list.
    pub fn len(&self) -> (n: usize)
        ensures
            n == self@.len(),
    {
        self.elems.len()
    }

    /// Append an element at the back.
    pub fn push_back(&mut self, value: T)
        ensures
            final(self)@ == old(self)@.push(value),
    {
        self.elems.push(value);
    }

    /// Remove and return the front element, if any.
    pub fn pop_front(&mut self) -> (r: Option<T>)
        ensures
            match r {
                Option::Some(x) => {
                    &&& old(self)@.len() > 0
                    &&& x == old(self)@[0]
                    &&& final(self)@ == old(self)@.drop_first()
                },
                Option::None => {
                    &&& old(self)@.len() == 0
                    &&& final(self)@ == old(self)@
                },
            },
    {
        if self.elems.len() > 0 {
            let x = self.elems.remove(0);
            proof {
                assert(self@ =~= old(self)@.drop_first());
            }
            Option::Some(x)
        } else {
            Option::None
        }
    }

    /// Move every element of `other` to the back of this list, in order.
    pub fn append(&mut self, other: &mut LinkedList<T>)
        ensures
            final(self)@ == old(self)@ + old(other)@,
            final(other)@ == Seq::<T>::empty(),
    {
        self.elems.append(&mut other.elems);
    }

    /// Build a list holding the elements of `v`, in order.
    pub fn from_vec(v: Vec<T>) -> (r: LinkedList<T>)
        ensures
            r@ == v@,
    {
        LinkedList { elems: v }
    }

    /// Give up the list, handing its elements out in order.
    pub fn into_vec(self) -> (r: Vec<T>)
        ensures
            r@ == self@,
    {
        self.elems
    }
}

/// The views of a sequence of lists, in the same order.
pub open spec fn list_views<B>(ms: Seq<LinkedList<B>>) -> Seq<Seq<B>> {
    ms.map_values(|m: LinkedList<B>| m@)
}

/// Type constructor of the linked-list shape.
pub struct LinkedListCon;

impl<T> MonadTyCon<T> for LinkedListCon {
    type Outer = LinkedList<T>;
}

impl<A, B> Monad<A, B> for LinkedList<A> {
    type TyCon = LinkedListCon;

    type ObsOut = Seq<B>;

    open spec fn held(self) -> Seq<A> {
        self@
    }

    open spec fn held_out(m: LinkedList<B>) -> Seq<B> {
        m@
    }

    open spec fn obs_out(m: LinkedList<B>) -> Seq<B> {
        m@
    }

    open spec fn reshaped(self, vm: Seq<B>, r: LinkedList<B>) -> bool {
        r@ == vm
    }

    open spec fn flat_of(self, inners: Seq<LinkedList<B>>, r: LinkedList<B>) -> bool {
        r@ == list_views(inners).flatten()
    }

    proof fn lemma_reshaped_held(self, vm: Seq<B>, r: LinkedList<B>) {
    }

    proof fn lemma_map_via_bind(self, vm: Seq<B>, inners: Seq<LinkedList<B>>, r: LinkedList<B>) {
        let views = list_views(inners);
        assert forall|i: int| 0 <= i < views.len() implies (#[trigger] views[i]).len() == 1
            && views[i][0] == vm[i] by {
            assert(views[i] == inners[i]@);
        }
        lemma_flatten_singletons(views, vm);
    }

    proof fn lemma_bind_of_wrap(self, m: LinkedList<B>, r: LinkedList<B>) {
        let views = list_views(Seq::empty().push(m));
        assert(views =~= seq![m@]);
        views.lemma_flatten_one_element();
        assert(views.flatten() == m@);
    }

    fn fmap<F: Fn(A) -> B>(self, f: F) -> (r: LinkedList<B>) {
        let ghost s = self;
        let ghost orig = self@;
        let mut input = self;
        let mut r: LinkedList<B> = LinkedList::new();
        proof {
            assert(<LinkedList<A> as Monad<A, B>>::held(s) == orig);
        }
        while input.len() > 0
            invariant
                r@.len() + input@.len() == orig.len(),
                input@ == orig.subrange(r@.len() as int, orig.len() as int),
                forall|i: int| 0 <= i < orig.len() ==> call_requires(f, (orig[i],)),
                forall|i: int| 0 <= i < r@.len() ==> call_ensures(f, (orig[i],), #[trigger] r@[i]),
            decreases input@.len(),
        {
            let ghost k = r@.len() as int;
            match input.pop_front() {
                Option::Some(x) => {
                    proof {
                        assert(x == orig[k]);
                    }
                    let y = f(x);
                    r.push_back(y);
                    proof {
                        assert(input@ =~= orig.subrange(r@.len() as int, orig.len() as int));
                    }
                },
                Option::None => {
                    proof {
                        assert(false);
                    }
                },
            }
        }
        proof {
            let vm = r@;
            assert(vm.len() == <LinkedList<A> as Monad<A, B>>::held(s).len());
            assert(s.reshaped(vm, r));
        }
        r
    }

    fn pure(b: B) -> (r: LinkedList<B>) {
        let mut r: LinkedList<B> = LinkedList::new();
        r.push_back(b);
        r
    }

    fn bind<F: Fn(A) -> LinkedList<B>>(self, f: F) -> (r: LinkedList<B>) {
        let ghost s = self;
        let ghost orig = self@;
        let mut input = self;
        let mut r: LinkedList<B> = LinkedList::new();
        let ghost mut inners: Seq<LinkedList<B>> = Seq::empty();
        proof {
            assert(<LinkedList<A> as Monad<A, B>>::held(s) == orig);
            assert(r@ =~= list_views(inners).flatten());
        }
        while input.len() > 0
            invariant
                inners.len() + input@.len() == orig.len(),
                input@ == orig.subrange(inners.len() as int, orig.len() as int),
                forall|i: int| 0 <= i < orig.len() ==> call_requires(f, (orig[i],)),
                forall|i: int|
                    0 <= i < inners.len() ==> call_ensures(f, (orig[i],), #[trigger] inners[i]),
                r@ == list_views(inners).flatten(),
            decreases input@.len(),
        {
            let ghost k = inners.len() as int;
            match input.pop_front() {
                Option::Some(x) => {
                    proof {
                        assert(x == orig[k]);
                    }
                    let mut m = f(x);
                    let ghost mv = m;
                    r.append(&mut m);
                    proof {
                        let old_views = list_views(inners);
                        inners = inners.push(mv);
                        assert(list_views(inners) =~= old_views.push(mv@));
                        old_views.lemma_flatten_push(mv@);
                        assert(input@ =~= orig.subrange(inners.len() as int, orig.len() as int));
                    }
                },
                Option::None => {
                    proof {
                        assert(false);
                    }
                },
            }
        }
        proof {
            assert(inners.len() == <LinkedList<A> as Monad<A, B>>::held(s).len());
            assert(s.flat_of(inners, r));
        }
        r
    }
}

impl<A> MonadLaws<A> for LinkedList<A> {
    proof fn lemma_held_agree(m: Self) {
    }

    proof fn lemma_reshaped_identity(self, r: Self) {
    }
}

} // verus!
