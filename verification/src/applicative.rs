//! The applicative capability for the growable-sequence shape: combining a
//! sequence of transforms with a sequence of values productwise.
//!
//! The cross product is ordered transforms-outer, values-inner: one output
//! per (transform, value) pair, transforms in their own order, values in
//! their own order within each transform.  Values must be duplicable
//! (`Copy`), since every transform visits every value.

use vstd::prelude::*;

verus! {

/// Apply every transform to every value: output position `i * vals.len() + j`
/// is transform `i` applied to value `j`.
pub fn vec_apply<A: Copy, B, F: Fn(A) -> B>(funcs: Vec<F>, vals: Vec<A>) -> (r: Vec<B>)
    requires
        forall|i: int, j: int|
            0 <= i < funcs@.len() && 0 <= j < vals@.len() ==> #[trigger] call_requires(
                funcs@[i],
                (vals@[j],),
            ),
    ensures
        r@.len() == funcs@.len() * vals@.len(),
        forall|i: int, j: int|
            0 <= i < funcs@.len() && 0 <= j < vals@.len() ==> call_ensures(
                funcs@[i],
                (vals@[j],),
                #[trigger] r@[i * vals@.len() + j],
            ),
{
    let ghost origf = funcs@;
    let ghost origv = vals@;
    let mut fs = funcs;
    let mut r: Vec<B> = Vec::new();
    let ghost n = origv.len() as int;
    while fs.len() > 0
        invariant
            fs@.len() <= origf.len(),
            fs@ == origf.subrange(origf.len() - fs@.len(), origf.len() as int),
            vals@ == origv,
            r@.len() == (origf.len() - fs@.len()) * n,
            n == origv.len(),
            forall|i: int, j: int|
                0 <= i < origf.len() && 0 <= j < n ==> #[trigger] call_requires(
                    origf[i],
                    (origv[j],),
                ),
            forall|i: int, j: int|
                0 <= i < origf.len() - fs@.len() && 0 <= j < n ==> call_ensures(
                    origf[i],
                    (origv[j],),
                    #[trigger] r@[i * n + j],
                ),
        decreases fs@.len(),
    {
        let ghost fi = (origf.len() - fs@.len()) as int;
        let ghost row_start = r@.len() as int;
        let f = fs.remove(0);
        proof {
            assert(f == origf[fi]);
        }
        let mut j: usize = 0;
        while j < vals.len()
            invariant
                0 <= j <= origv.len(),
                vals@ == origv,
                n == origv.len(),
                f == origf[fi],
                0 <= fi < origf.len(),
                row_start == fi * n,
                r@.len() == row_start + j,
                forall|jj: int| 0 <= jj < n ==> call_requires(f, (origv[jj],)),
                forall|i: int, jj: int|
                    0 <= i < fi && 0 <= jj < n ==> call_ensures(
                        origf[i],
                        (origv[jj],),
                        #[trigger] r@[i * n + jj],
                    ),
                forall|jj: int|
                    0 <= jj < j ==> call_ensures(f, (origv[jj],), #[trigger] r@[row_start + jj]),
            decreases origv.len() - j,
        {
            let x = vals[j];
            let y = f(x);
            let ghost rprev = r@;
            r.push(y);
            j = j + 1;
            proof {
                assert forall|i: int, jj: int| 0 <= i < fi && 0 <= jj < n implies call_ensures(
                    origf[i],
                    (origv[jj],),
                    #[trigger] r@[i * n + jj],
                ) by {
                    assert(0 <= i * n + jj < row_start) by (nonlinear_arith)
                        requires
                            0 <= i,
                            i < fi,
                            0 <= jj,
                            jj < n,
                            row_start == fi * n,
                    ;
                    assert(r@[i * n + jj] == rprev[i * n + jj]);
                    assert(call_ensures(origf[i], (origv[jj],), rprev[i * n + jj]));
                }
            }
        }
        proof {
            assert(fs@ =~= origf.subrange(origf.len() - fs@.len(), origf.len() as int));
            assert(r@.len() == (fi + 1) * n) by (nonlinear_arith)
                requires
                    r@.len() == fi * n + n,
            ;
            assert forall|i: int, jj: int|
                0 <= i < origf.len() - fs@.len() && 0 <= jj < n implies call_ensures(
                origf[i],
                (origv[jj],),
                #[trigger] r@[i * n + jj],
            ) by {
                if i < fi {
                    assert(call_ensures(origf[i], (origv[jj],), r@[i * n + jj]));
                } else {
                    assert(i == fi);
                    assert(call_ensures(f, (origv[jj],), r@[row_start + jj]));
                }
            }
        }
    }
    proof {
        assert(r@.len() == origf.len() * n);
    }
    r
}

} // verus!
