//! The optional-value shape: at most one held value, absence short-circuits.

use vstd::prelude::*;

use crate::Monad;
use crate::MonadLaws;
use crate::MonadTyCon;

verus! {

/// The held values of an optional container, in traversal order.
pub open spec fn option_held<A>(o: Option<A>) -> Seq<A> {
    match o {
        Option::Some(a) => seq![a],
        Option::None => Seq::empty(),
    }
}

/// Type constructor of the optional-value shape.
pub struct OptionCon;

impl<T> MonadTyCon<T> for OptionCon {
    type Outer = Option<T>;
}

impl<A, B> Monad<A, B> for Option<A> {
    type TyCon = OptionCon;

    type ObsOut = Option<B>;

    open spec fn held(self) -> Seq<A> {
        option_held(self)
    }

    open spec fn held_out(m: Option<B>) -> Seq<B> {
        option_held(m)
    }

    open spec fn obs_out(m: Option<B>) -> Option<B> {
        m
    }

    open spec fn reshaped(self, vm: Seq<B>, r: Option<B>) -> bool {
        match self {
            Option::Some(_) => vm.len() == 1 && r == Option::Some(vm[0]),
            Option::None => r is None,
        }
    }

    open spec fn flat_of(self, inners: Seq<Option<B>>, r: Option<B>) -> bool {
        match self {
            Option::Some(_) => inners.len() == 1 && r == inners[0],
            Option::None => r is None,
        }
    }

    proof fn lemma_reshaped_held(self, vm: Seq<B>, r: Option<B>) {
        match self {
            Option::Some(_) => {
                assert(Self::held_out(r) =~= vm);
            },
            Option::None => {
                assert(Self::held_out(r) =~= vm);
            },
        }
    }

    proof fn lemma_map_via_bind(self, vm: Seq<B>, inners: Seq<Option<B>>, r: Option<B>) {
        if self is Some {
            assert(Self::held_out(inners[0]) == seq![vm[0]]);
            assert(inners[0] == Option::Some(vm[0]));
        }
    }

    proof fn lemma_bind_of_wrap(self, m: Option<B>, r: Option<B>) {
    }

    fn fmap<F: Fn(A) -> B>(self, f: F) -> (r: Option<B>) {
        match self {
            Option::Some(a) => {
                proof {
                    assert(<Option<A> as Monad<A, B>>::held(self)[0] == a);
                }
                let b = f(a);
                proof {
                    let vm = seq![b];
                    assert(vm.len() == option_held(self).len());
                    assert(call_ensures(f, (option_held(self)[0],), vm[0]));
                    assert(self.reshaped(vm, Option::Some(b)));
                }
                Option::Some(b)
            },
            Option::None => {
                proof {
                    let vm = Seq::<B>::empty();
                    assert(vm.len() == option_held(self).len());
                    assert(self.reshaped(vm, Option::<B>::None));
                }
                Option::None
            },
        }
    }

    fn pure(b: B) -> (r: Option<B>) {
        Option::Some(b)
    }

    fn bind<F: Fn(A) -> Option<B>>(self, f: F) -> (r: Option<B>) {
        match self {
            Option::Some(a) => {
                proof {
                    assert(<Option<A> as Monad<A, B>>::held(self)[0] == a);
                }
                let m = f(a);
                proof {
                    let inners = seq![m];
                    assert(inners.len() == option_held(self).len());
                    assert(call_ensures(f, (option_held(self)[0],), inners[0]));
                    assert(self.flat_of(inners, m));
                }
                m
            },
            Option::None => {
                proof {
                    let inners = Seq::<Option<B>>::empty();
                    assert(inners.len() == option_held(self).len());
                    assert(self.flat_of(inners, Option::<B>::None));
                }
                Option::None
            },
        }
    }
}

impl<A> MonadLaws<A> for Option<A> {
    proof fn lemma_held_agree(m: Self) {
    }

    proof fn lemma_reshaped_identity(self, r: Self) {
        match self {
            Option::Some(a) => {
                assert(option_held(self) == seq![a]);
                assert(r == Option::Some(a));
            },
            Option::None => {},
        }
    }
}

} // verus!
