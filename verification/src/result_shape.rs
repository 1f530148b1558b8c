//! The fallible-result shape: a success value or an error, the error
//! short-circuits mapping and binding untouched.

use vstd::prelude::*;

use crate::Monad;
use crate::MonadLaws;
use crate::MonadTyCon;

verus! {

/// The held values of a fallible container: the success value, if any.
pub open spec fn result_held<A, E>(r: Result<A, E>) -> Seq<A> {
    match r {
        Result::Ok(a) => seq![a],
        Result::Err(_) => Seq::empty(),
    }
}

/// Type constructor of the fallible-result shape with error type `E`.
pub struct ResultCon<E>(core::marker::PhantomData<E>);

impl<T, E> MonadTyCon<T> for ResultCon<E> {
    type Outer = Result<T, E>;
}

impl<A, B, E> Monad<A, B> for Result<A, E> {
    type TyCon = ResultCon<E>;

    type ObsOut = Result<B, E>;

    open spec fn held(self) -> Seq<A> {
        result_held(self)
    }

    open spec fn held_out(m: Result<B, E>) -> Seq<B> {
        result_held(m)
    }

    open spec fn obs_out(m: Result<B, E>) -> Result<B, E> {
        m
    }

    open spec fn reshaped(self, vm: Seq<B>, r: Result<B, E>) -> bool {
        match self {
            Result::Ok(_) => vm.len() == 1 && r == Result::<B, E>::Ok(vm[0]),
            Result::Err(e) => r == Result::<B, E>::Err(e),
        }
    }

    open spec fn flat_of(self, inners: Seq<Result<B, E>>, r: Result<B, E>) -> bool {
        match self {
            Result::Ok(_) => inners.len() == 1 && r == inners[0],
            Result::Err(e) => r == Result::<B, E>::Err(e),
        }
    }

    proof fn lemma_reshaped_held(self, vm: Seq<B>, r: Result<B, E>) {
        match self {
            Result::Ok(_) => {
                assert(result_held(r) =~= vm);
            },
            Result::Err(_) => {
                assert(result_held(r) =~= vm);
            },
        }
    }

    proof fn lemma_map_via_bind(self, vm: Seq<B>, inners: Seq<Result<B, E>>, r: Result<B, E>) {
        if self is Ok {
            assert(result_held(inners[0]).len() == 1);
            assert(inners[0] == Result::<B, E>::Ok(vm[0]));
        }
    }

    proof fn lemma_bind_of_wrap(self, m: Result<B, E>, r: Result<B, E>) {
    }

    fn fmap<F: Fn(A) -> B>(self, f: F) -> (r: Result<B, E>) {
        match self {
            Result::Ok(a) => {
                proof {
                    assert(<Result<A, E> as Monad<A, B>>::held(self)[0] == a);
                }
                let b = f(a);
                proof {
                    let vm = seq![b];
                    assert(vm.len() == result_held(self).len());
                    assert(call_ensures(f, (result_held(self)[0],), vm[0]));
                    assert(self.reshaped(vm, Result::<B, E>::Ok(b)));
                }
                Result::Ok(b)
            },
            Result::Err(e) => {
                let r = Result::<B, E>::Err(e);
                proof {
                    let vm = Seq::<B>::empty();
                    assert(vm.len() == result_held(self).len());
                    assert(self.reshaped(vm, r));
                }
                r
            },
        }
    }

    fn pure(b: B) -> (r: Result<B, E>) {
        Result::Ok(b)
    }

    fn bind<F: Fn(A) -> Result<B, E>>(self, f: F) -> (r: Result<B, E>) {
        match self {
            Result::Ok(a) => {
                proof {
                    assert(<Result<A, E> as Monad<A, B>>::held(self)[0] == a);
                }
                let m = f(a);
                proof {
                    let inners = seq![m];
                    assert(inners.len() == result_held(self).len());
                    assert(call_ensures(f, (result_held(self)[0],), inners[0]));
                    assert(self.flat_of(inners, m));
                }
                m
            },
            Result::Err(e) => {
                let r = Result::<B, E>::Err(e);
                proof {
                    let inners = Seq::<Result<B, E>>::empty();
                    assert(inners.len() == result_held(self).len());
                    assert(self.flat_of(inners, r));
                }
                r
            },
        }
    }
}

impl<A, E> MonadLaws<A> for Result<A, E> {
    proof fn lemma_held_agree(m: Self) {
    }

    proof fn lemma_reshaped_identity(self, r: Self) {
        match self {
            Result::Ok(a) => {
                assert(result_held(self) == seq![a]);
                assert(r == Result::<A, E>::Ok(a));
            },
            Result::Err(_) => {},
        }
    }
}

} // verus!
