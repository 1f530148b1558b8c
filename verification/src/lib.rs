//! Functors and monads over container shapes.
//!
//! A *shape* is the outer structure of a generic container (optional value,
//! sequence, fallible result, ...) independent of the type it currently
//! holds.  The traits here let the held type of a container be replaced
//! (`fmap`), a plain value be wrapped into the canonical single-value
//! container of a shape (`pure`), and a per-value container-producing step
//! be applied and flattened (`bind`).
//!
//! Every operation carries a contract that pins the result down in terms of
//! the shape's mathematical model: the sequence of held values in traversal
//! order, together with a shape-specific notion of complete observable
//! content (`ObsOut`).  The monad laws are stated as proof functions, both
//! generically (see [`MonadLaws`] and the lemmas in [`combinators`]) and over
//! the spec-level models (see [`laws`]).

use vstd::prelude::*;

pub mod applicative;
pub mod callable;
pub mod combinators;
pub mod deque_shape;
pub mod future;
pub mod laws;
pub mod lazy;
pub mod list;
pub mod option_shape;
pub mod result_shape;
pub mod set_shape;
pub mod universal;
pub mod vec_shape;
pub mod zipvec;

verus! {

/// Type constructor for a [`Monad`] shape: associates to each held-value
/// type `T` the concrete container type of this shape holding `T`.
pub trait MonadTyCon<T> {
    /// The container type of this shape holding values of type `T`.
    type Outer;
}

/// A container of `A` values whose held type can be mapped to `B`,
/// preserving the shape.
///
/// The contract language is the shape's model: `held` gives the held values
/// in traversal order; `reshaped` says exactly when an output container is
/// this container with its held values replaced; `flat_of` says exactly when
/// an output container is the in-order flattening of per-value inner
/// containers; `obs_out` gives the complete observable content of an output
/// container.  The proof functions are obligations every shape must
/// discharge; they are the shape-generic halves of the monad laws.
pub trait Monad<A, B>: Sized {
    /// The type constructor shared by the input and output containers.
    type TyCon: MonadTyCon<A, Outer = Self> + MonadTyCon<B>;

    /// Complete observable content of an output container.
    type ObsOut;

    /// The held values of this container, in traversal order.
    spec fn held(self) -> Seq<A>;

    /// The held values of an output container, in traversal order.
    spec fn held_out(m: <Self::TyCon as MonadTyCon<B>>::Outer) -> Seq<B>;

    /// Complete observable content of an output container: two containers
    /// with equal `obs_out` are observably equal.
    spec fn obs_out(m: <Self::TyCon as MonadTyCon<B>>::Outer) -> Self::ObsOut;

    /// Exact meaning of "`r` is this container with its held values replaced
    /// by `vm`", for a value map `vm` with one entry per held value.
    spec fn reshaped(self, vm: Seq<B>, r: <Self::TyCon as MonadTyCon<B>>::Outer) -> bool;

    /// Exact meaning of "`r` is the in-order flattening of the inner
    /// containers `inners`", with one inner container per held value.
    spec fn flat_of(
        self,
        inners: Seq<<Self::TyCon as MonadTyCon<B>>::Outer>,
        r: <Self::TyCon as MonadTyCon<B>>::Outer,
    ) -> bool;

    /// A reshaped container holds exactly the value map.
    proof fn lemma_reshaped_held(self, vm: Seq<B>, r: <Self::TyCon as MonadTyCon<B>>::Outer)
        requires
            vm.len() == self.held().len(),
            self.reshaped(vm, r),
        ensures
            Self::held_out(r) == vm,
    ;

    /// Mapping via bind: flattening single-value inner containers is exactly
    /// a reshape by the values they hold.
    proof fn lemma_map_via_bind(
        self,
        vm: Seq<B>,
        inners: Seq<<Self::TyCon as MonadTyCon<B>>::Outer>,
        r: <Self::TyCon as MonadTyCon<B>>::Outer,
    )
        requires
            vm.len() == self.held().len(),
            inners.len() == self.held().len(),
            forall|i: int|
                0 <= i < inners.len() ==> Self::held_out(#[trigger] inners[i]).len() == 1,
            forall|i: int|
                0 <= i < inners.len() ==> Self::held_out(#[trigger] inners[i])[0] == vm[i],
            self.flat_of(inners, r),
        ensures
            self.reshaped(vm, r),
    ;

    /// Binding a single-value container substitutes the inner container:
    /// the core of the wrap-then-bind law.
    proof fn lemma_bind_of_wrap(
        self,
        m: <Self::TyCon as MonadTyCon<B>>::Outer,
        r: <Self::TyCon as MonadTyCon<B>>::Outer,
    )
        requires
            self.held().len() == 1,
            self.flat_of(Seq::empty().push(m), r),
        ensures
            Self::obs_out(r) == Self::obs_out(m),
    ;

    /// Map the held values to `B` with `f`, preserving the shape.
    fn fmap<F: Fn(A) -> B>(self, f: F) -> (r: <Self::TyCon as MonadTyCon<B>>::Outer)
        requires
            forall|i: int| 0 <= i < self.held().len() ==> call_requires(f, (self.held()[i],)),
        ensures
            exists|vm: Seq<B>|
                {
                    &&& vm.len() == self.held().len()
                    &&& forall|i: int|
                        0 <= i < vm.len() ==> call_ensures(f, (self.held()[i],), #[trigger] vm[i])
                    &&& self.reshaped(vm, r)
                },
    ;

    /// Wrap a plain value into the canonical single-value container of this
    /// shape.
    fn pure(b: B) -> (r: <Self::TyCon as MonadTyCon<B>>::Outer)
        ensures
            Self::held_out(r).len() == 1,
            Self::held_out(r)[0] == b,
    ;

    /// Apply `f` to every held value and flatten the resulting containers in
    /// traversal order.
    fn bind<F: Fn(A) -> <Self::TyCon as MonadTyCon<B>>::Outer>(self, f: F) -> (r: <Self::TyCon as MonadTyCon<B>>::Outer)
        requires
            forall|i: int| 0 <= i < self.held().len() ==> call_requires(f, (self.held()[i],)),
        ensures
            exists|inners: Seq<<Self::TyCon as MonadTyCon<B>>::Outer>|
                {
                    &&& inners.len() == self.held().len()
                    &&& forall|i: int|
                        0 <= i < inners.len() ==> call_ensures(
                            f,
                            (self.held()[i],),
                            #[trigger] inners[i],
                        )
                    &&& self.flat_of(inners, r)
                },
    ;
}

/// The same-held-type laws of a [`Monad`] shape, the per-shape halves of the
/// identity and unit laws.
pub trait MonadLaws<A>: Monad<A, A> {
    /// On a same-type mapping the two held-value views agree.
    proof fn lemma_held_agree(m: Self)
        ensures
            Self::held_out(m) == m.held(),
    ;

    /// Identity law, per shape: reshaping a container by its own held values
    /// yields an observably equal container.
    proof fn lemma_reshaped_identity(self, r: Self)
        requires
            self.reshaped(self.held(), r),
        ensures
            Self::obs_out(r) == Self::obs_out(self),
    ;
}

} // verus!
