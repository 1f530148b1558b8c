//! A sequence newtype whose applicative combines by zipping: the transform
//! at each position is applied to the value at the same position.

use vstd::prelude::*;

verus! {

/// A sequence that applies a sequence of transforms by zipping.
#[derive(Clone, PartialEq, Eq, PartialOrd, Ord, Hash, Debug)]
pub struct ZipVec<T>(pub Vec<T>);

impl<A> ZipVec<A> {
    /// Map the held values, preserving length and order.
    pub fn fmap<B, F: Fn(A) -> B>(self, f: F) -> (r: ZipVec<B>)
        requires
            forall|i: int| 0 <= i < self.0@.len() ==> call_requires(f, (self.0@[i],)),
        ensures
            r.0@.len() == self.0@.len(),
            forall|i: int|
                0 <= i < r.0@.len() ==> call_ensures(f, (self.0@[i],), #[trigger] r.0@[i]),
    {
        let ghost orig = self.0@;
        let mut input = self.0;
        let mut r: Vec<B> = Vec::new();
        while input.len() > 0
            invariant
                r@.len() + input@.len() == orig.len(),
                input@ == orig.subrange(r@.len() as int, orig.len() as int),
                forall|i: int| 0 <= i < orig.len() ==> call_requires(f, (orig[i],)),
                forall|i: int| 0 <= i < r@.len() ==> call_ensures(f, (orig[i],), #[trigger] r@[i]),
            decreases input@.len(),
        {
            let ghost k = r@.len() as int;
            let x = input.remove(0);
            proof {
                assert(x == orig[k]);
            }
            let y = f(x);
            r.push(y);
            proof {
                assert(input@ =~= orig.subrange(r@.len() as int, orig.len() as int));
            }
        }
        ZipVec(r)
    }

    /// In-place variant of mapping for a transform that keeps the held
    /// type: observably equivalent to rebuilding with [`ZipVec::fmap`].
    pub fn fmap_mut<F: Fn(A) -> A>(&mut self, f: F)
        requires
            forall|i: int| 0 <= i < old(self).0@.len() ==> call_requires(f, (old(self).0@[i],)),
        ensures
            final(self).0@.len() == old(self).0@.len(),
            forall|i: int|
                0 <= i < final(self).0@.len() ==> call_ensures(
                    f,
                    (old(self).0@[i],),
                    #[trigger] final(self).0@[i],
                ),
    {
        let ghost orig = self.0@;
        let mut input: Vec<A> = Vec::new();
        core::mem::swap(&mut self.0, &mut input);
        while input.len() > 0
            invariant
                self.0@.len() + input@.len() == orig.len(),
                input@ == orig.subrange(self.0@.len() as int, orig.len() as int),
                forall|i: int| 0 <= i < orig.len() ==> call_requires(f, (orig[i],)),
                forall|i: int|
                    0 <= i < self.0@.len() ==> call_ensures(f, (orig[i],), #[trigger] self.0@[i]),
            decreases input@.len(),
        {
            let ghost k = self.0@.len() as int;
            let x = input.remove(0);
            proof {
                assert(x == orig[k]);
            }
            let y = f(x);
            self.0.push(y);
            proof {
                assert(input@ =~= orig.subrange(self.0@.len() as int, orig.len() as int));
            }
        }
    }

    /// Same-type mapping by value, choosing the in-place strategy.
    pub fn fmap_fn_mutref<F: Fn(A) -> A>(self, f: F) -> (r: ZipVec<A>)
        requires
            forall|i: int| 0 <= i < self.0@.len() ==> call_requires(f, (self.0@[i],)),
        ensures
            r.0@.len() == self.0@.len(),
            forall|i: int|
                0 <= i < r.0@.len() ==> call_ensures(f, (self.0@[i],), #[trigger] r.0@[i]),
    {
        let mut this = self;
        this.fmap_mut(f);
        this
    }

    /// The canonical one-element zipping sequence.
    pub fn pure(b: A) -> (r: ZipVec<A>)
        ensures
            r.0@ =~= seq![b],
    {
        let mut v: Vec<A> = Vec::new();
        v.push(b);
        ZipVec(v)
    }

    /// Apply a sequence of transforms by zipping: position `i` of the
    /// result is transform `i` applied to value `i`, up to the shorter of
    /// the two sequences.
    pub fn apply<B, F: Fn(A) -> B>(self, funcs: ZipVec<F>) -> (r: ZipVec<B>)
        requires
            forall|i: int|
                0 <= i < self.0@.len() && i < funcs.0@.len() ==> call_requires(
                    #[trigger] funcs.0@[i],
                    (self.0@[i],),
                ),
        ensures
            r.0@.len() == if self.0@.len() <= funcs.0@.len() {
                self.0@.len()
            } else {
                funcs.0@.len()
            },
            forall|i: int|
                0 <= i < r.0@.len() ==> call_ensures(funcs.0@[i], (self.0@[i],), #[trigger] r.0@[i]),
    {
        let ghost origv = self.0@;
        let ghost origf = funcs.0@;
        let mut vals = self.0;
        let mut fs = funcs.0;
        let mut r: Vec<B> = Vec::new();
        while vals.len() > 0 && fs.len() > 0
            invariant
                r@.len() + vals@.len() == origv.len(),
                r@.len() + fs@.len() == origf.len(),
                vals@ == origv.subrange(r@.len() as int, origv.len() as int),
                fs@ == origf.subrange(r@.len() as int, origf.len() as int),
                forall|i: int|
                    0 <= i < origv.len() && i < origf.len() ==> call_requires(
                        #[trigger] origf[i],
                        (origv[i],),
                    ),
                forall|i: int|
                    0 <= i < r@.len() ==> call_ensures(origf[i], (origv[i],), #[trigger] r@[i]),
            decreases vals@.len(),
        {
            let ghost k = r@.len() as int;
            let x = vals.remove(0);
            let f = fs.remove(0);
            proof {
                assert(x == origv[k]);
                assert(f == origf[k]);
            }
            let y = f(x);
            r.push(y);
            proof {
                assert(vals@ =~= origv.subrange(r@.len() as int, origv.len() as int));
                assert(fs@ =~= origf.subrange(r@.len() as int, origf.len() as int));
            }
        }
        ZipVec(r)
    }
}

} // verus!
