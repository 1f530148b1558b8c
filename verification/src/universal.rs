//! Functors and monads whose held type can be changed to any other type,
//! stated without bounds on the held type.
//!
//! The conversion methods are observably the identity: they only retarget
//! the type at which the container's mapping capability is used, so a
//! caller can chain mappings through several held types and convert back.
//! Each contract pins that down: the converted container equals the input.

use vstd::prelude::*;

use crate::future::Future;
use crate::lazy::LazySeq;
use crate::list::LinkedList;
use crate::Monad;

verus! {

/// Type constructor for [`UniversalFunctor`]: associates to a held-value
/// type the container type of this shape holding it.
pub trait UniversalFunctorTyCon<A> {
    /// The container type of this shape holding values of type `A`.
    type Functor;
}

/// A functor whose held type can be mapped to any other type.
///
/// The two methods are no-op conversions between the views of one and the
/// same container taken at different mapping targets; both return their
/// input unchanged.
pub trait UniversalFunctor<A>: Sized {
    /// A type constructor whose created types implement this trait.
    type FunctorTyCon: UniversalFunctorTyCon<A, Functor = Self>;

    /// Return `self`, as a type whose held type can be mapped to any
    /// target type.
    fn change_functor_target(self) -> (r: Self)
        ensures
            r == self,
    ;

    /// Convert a mapped container back once its held type matches again.
    fn from_mapped_functor(this: Self) -> (r: Self)
        ensures
            r == this,
    ;
}

/// Same as [`UniversalFunctorTyCon`] but for [`UniversalMonad`]s.
pub trait UniversalMonadTyCon<A> {
    /// The container type of this shape holding values of type `A`.
    type Monad;
}

/// Same as [`UniversalFunctor`] but for monads: the shape additionally
/// wraps and binds.
pub trait UniversalMonad<A>: Monad<A, A> {
    /// A type constructor whose created types implement this trait.
    type MonadTyCon: UniversalMonadTyCon<A, Monad = Self>;

    /// Return `self`, as a type whose held type can be mapped to any
    /// target type.
    fn change_monad_target(self) -> (r: Self)
        ensures
            r == self,
    ;

    /// Convert a mapped container back once its held type matches again.
    fn from_mapped_monad(this: Self) -> (r: Self)
        ensures
            r == this,
    ;
}

/// Universal-functor type constructor of the optional shape.
pub struct Option_;

/// Universal-functor type constructor of the growable-sequence shape.
pub struct Vec_;

/// Universal-functor type constructor of the double-ended-queue shape.
pub struct VecDeque_;

/// Universal-functor type constructor of the linked-list shape.
pub struct LinkedList_;

/// Universal-functor type constructor of the fallible shape with error
/// type `E`.
pub struct Result_<E>(core::marker::PhantomData<E>);

/// Universal-functor type constructor of the hash-keyed-map shape with key
/// type `K`.
pub struct HashMap_<K>(core::marker::PhantomData<K>);

/// Universal-functor type constructor of the ordered-map shape with key
/// type `K`.
pub struct BTreeMap_<K>(core::marker::PhantomData<K>);

impl<A> UniversalFunctorTyCon<A> for Option_ {
    type Functor = Option<A>;
}

impl<A> UniversalFunctor<A> for Option<A> {
    type FunctorTyCon = Option_;

    fn change_functor_target(self) -> (r: Self) {
        self
    }

    fn from_mapped_functor(this: Self) -> (r: Self) {
        this
    }
}

impl<A> UniversalFunctorTyCon<A> for Vec_ {
    type Functor = Vec<A>;
}

impl<A> UniversalFunctor<A> for Vec<A> {
    type FunctorTyCon = Vec_;

    fn change_functor_target(self) -> (r: Self) {
        self
    }

    fn from_mapped_functor(this: Self) -> (r: Self) {
        this
    }
}

impl<A> UniversalFunctorTyCon<A> for VecDeque_ {
    type Functor = std::collections::VecDeque<A>;
}

impl<A> UniversalFunctor<A> for std::collections::VecDeque<A> {
    type FunctorTyCon = VecDeque_;

    fn change_functor_target(self) -> (r: Self) {
        self
    }

    fn from_mapped_functor(this: Self) -> (r: Self) {
        this
    }
}

impl<A> UniversalFunctorTyCon<A> for LinkedList_ {
    type Functor = LinkedList<A>;
}

impl<A> UniversalFunctor<A> for LinkedList<A> {
    type FunctorTyCon = LinkedList_;

    fn change_functor_target(self) -> (r: Self) {
        self
    }

    fn from_mapped_functor(this: Self) -> (r: Self) {
        this
    }
}

impl<A, E> UniversalFunctorTyCon<A> for Result_<E> {
    type Functor = Result<A, E>;
}

impl<A, E> UniversalFunctor<A> for Result<A, E> {
    type FunctorTyCon = Result_<E>;

    fn change_functor_target(self) -> (r: Self) {
        self
    }

    fn from_mapped_functor(this: Self) -> (r: Self) {
        this
    }
}

impl<K, A> UniversalFunctorTyCon<A> for HashMap_<K> {
    type Functor = std::collections::HashMap<K, A>;
}

impl<K, A> UniversalFunctor<A> for std::collections::HashMap<K, A> {
    type FunctorTyCon = HashMap_<K>;

    fn change_functor_target(self) -> (r: Self) {
        self
    }

    fn from_mapped_functor(this: Self) -> (r: Self) {
        this
    }
}

impl<K, A> UniversalFunctorTyCon<A> for BTreeMap_<K> {
    type Functor = std::collections::BTreeMap<K, A>;
}

impl<K, A> UniversalFunctor<A> for std::collections::BTreeMap<K, A> {
    type FunctorTyCon = BTreeMap_<K>;

    fn change_functor_target(self) -> (r: Self) {
        self
    }

    fn from_mapped_functor(this: Self) -> (r: Self) {
        this
    }
}

/// Universal-functor type constructor of the deferred-computation shape.
pub struct Future_;

/// Universal-functor type constructor of the lazy-sequence shape.
pub struct LazySeq_;

impl<A> UniversalFunctorTyCon<A> for Future_ {
    type Functor = Future<A>;
}

impl<A> UniversalFunctor<A> for Future<A> {
    type FunctorTyCon = Future_;

    fn change_functor_target(self) -> (r: Self) {
        self
    }

    fn from_mapped_functor(this: Self) -> (r: Self) {
        this
    }
}

impl<A> UniversalFunctorTyCon<A> for LazySeq_ {
    type Functor = LazySeq<A>;
}

impl<A> UniversalFunctor<A> for LazySeq<A> {
    type FunctorTyCon = LazySeq_;

    fn change_functor_target(self) -> (r: Self) {
        self
    }

    fn from_mapped_functor(this: Self) -> (r: Self) {
        this
    }
}

/// Universal-monad type constructor of the optional shape.
pub struct OptionM_;

/// Universal-monad type constructor of the growable-sequence shape.
pub struct VecM_;

/// Universal-monad type constructor of the double-ended-queue shape.
pub struct VecDequeM_;

/// Universal-monad type constructor of the linked-list shape.
pub struct LinkedListM_;

/// Universal-monad type constructor of the fallible shape with error type
/// `E`.
pub struct ResultM_<E>(core::marker::PhantomData<E>);

impl<A> UniversalMonadTyCon<A> for OptionM_ {
    type Monad = Option<A>;
}

impl<A> UniversalMonad<A> for Option<A> {
    type MonadTyCon = OptionM_;

    fn change_monad_target(self) -> (r: Self) {
        self
    }

    fn from_mapped_monad(this: Self) -> (r: Self) {
        this
    }
}

impl<A> UniversalMonadTyCon<A> for VecM_ {
    type Monad = Vec<A>;
}

impl<A> UniversalMonad<A> for Vec<A> {
    type MonadTyCon = VecM_;

    fn change_monad_target(self) -> (r: Self) {
        self
    }

    fn from_mapped_monad(this: Self) -> (r: Self) {
        this
    }
}

impl<A> UniversalMonadTyCon<A> for VecDequeM_ {
    type Monad = std::collections::VecDeque<A>;
}

impl<A> UniversalMonad<A> for std::collections::VecDeque<A> {
    type MonadTyCon = VecDequeM_;

    fn change_monad_target(self) -> (r: Self) {
        self
    }

    fn from_mapped_monad(this: Self) -> (r: Self) {
        this
    }
}

impl<A> UniversalMonadTyCon<A> for LinkedListM_ {
    type Monad = LinkedList<A>;
}

impl<A> UniversalMonad<A> for LinkedList<A> {
    type MonadTyCon = LinkedListM_;

    fn change_monad_target(self) -> (r: Self) {
        self
    }

    fn from_mapped_monad(this: Self) -> (r: Self) {
        this
    }
}

impl<A, E> UniversalMonadTyCon<A> for ResultM_<E> {
    type Monad = Result<A, E>;
}

impl<A, E> UniversalMonad<A> for Result<A, E> {
    type MonadTyCon = ResultM_<E>;

    fn change_monad_target(self) -> (r: Self) {
        self
    }

    fn from_mapped_monad(this: Self) -> (r: Self) {
        this
    }
}

} // verus!
