//! Shape broadcasting: aligning two shapes from their trailing dimensions,
//! replicating size-1 dimensions, and mapping a flat row index of the
//! broadcast shape back to the flat row index it reads in a source shape.
//!
//! Shapes are rows of non-negative dimension sizes, flat data is row-major.
//! Everything here is pure arithmetic on shapes; the dot kernel builds on it.

use crate::buffer::Error;
use vstd::prelude::*;

verus! {

/// The dimension of `s` at distance `k` from its trailing end; missing
/// leading dimensions count as 1.
pub open spec fn dim_from_right(s: Seq<usize>, k: int) -> usize {
    if 0 <= k < s.len() {
        s[s.len() - 1 - k]
    } else {
        1
    }
}

/// Two aligned dimensions broadcast together when they are equal or either
/// is 1.
pub open spec fn dim_ok(x: usize, y: usize) -> bool {
    x == y || x == 1 || y == 1
}

/// The longer of the two ranks.
pub open spec fn max_rank(a: Seq<usize>, b: Seq<usize>) -> int {
    if a.len() >= b.len() {
        a.len() as int
    } else {
        b.len() as int
    }
}

/// The shapes broadcast together: aligned from the right, every pair of
/// dimensions is equal or has a 1 side.
pub open spec fn shapes_compatible(a: Seq<usize>, b: Seq<usize>) -> bool {
    forall|k: int| 0 <= k < max_rank(a, b) ==> dim_ok(dim_from_right(a, k), dim_from_right(b, k))
}

/// The broadcast dimension at distance `k` from the right: the non-1 side
/// (they agree when neither is 1).
pub open spec fn bcast_dim(a: Seq<usize>, b: Seq<usize>, k: int) -> usize {
    if dim_from_right(a, k) == 1 {
        dim_from_right(b, k)
    } else {
        dim_from_right(a, k)
    }
}

/// The broadcast shape: the longer rank, each dimension the broadcast of
/// the two aligned dimensions.
pub open spec fn bcast_shape(a: Seq<usize>, b: Seq<usize>) -> Seq<usize> {
    Seq::new(max_rank(a, b) as nat, |i: int| bcast_dim(a, b, max_rank(a, b) - 1 - i))
}

/// The number of elements a shape describes: the product of its dimensions
/// (1 for the empty shape).
pub open spec fn shape_product(s: Seq<usize>) -> int
    decreases s.len(),
{
    if s.len() == 0 {
        1
    } else {
        shape_product(s.drop_last()) * s.last()
    }
}

/// A shape describes elements exactly when every dimension is positive.
pub proof fn lemma_shape_product_pos(s: Seq<usize>)
    ensures
        shape_product(s) >= 0,
        (shape_product(s) > 0 <==> forall|i: int| 0 <= i < s.len() ==> s[i] > 0),
    decreases s.len(),
{
    if s.len() > 0 {
        lemma_shape_product_pos(s.drop_last());
        if shape_product(s) > 0 {
            assert(shape_product(s.drop_last()) > 0 && s.last() > 0) by (nonlinear_arith)
                requires
                    shape_product(s) == shape_product(s.drop_last()) * s.last(),
                    shape_product(s.drop_last()) >= 0,
                    shape_product(s) > 0,
            ;
            assert forall|i: int| 0 <= i < s.len() implies s[i] > 0 by {
                if i < s.len() - 1 {
                    assert(s.drop_last()[i] == s[i]);
                }
            }
        } else {
            if forall|i: int| 0 <= i < s.len() ==> s[i] > 0 {
                assert forall|i: int| 0 <= i < s.drop_last().len() implies s.drop_last()[i]
                    > 0 by {
                    assert(s.drop_last()[i] == s[i]);
                }
                assert(shape_product(s.drop_last()) > 0);
                assert(s.last() > 0);
                assert(shape_product(s) > 0) by (nonlinear_arith)
                    requires
                        shape_product(s) == shape_product(s.drop_last()) * s.last(),
                        shape_product(s.drop_last()) > 0,
                        s.last() > 0,
                ;
            }
        }
    }
}

/// Every dimension of `src`, aligned from the right against `out`, is
/// either the same as the broadcast dimension or 1: what holds of each
/// source shape against the broadcast shape.
pub open spec fn src_compatible(src: Seq<usize>, out: Seq<usize>) -> bool {
    &&& src.len() <= out.len()
    &&& forall|k: int|
        0 <= k < out.len() ==> (dim_from_right(src, k) == dim_from_right(out, k)
            || dim_from_right(src, k) == 1)
}

/// The flat row index into `src` that flat row `i` of the broadcast shape
/// `out` reads: decompose `i` into digits under `out` from the trailing
/// dimension, clamp each digit to 0 where `src` has a 1 (replicated)
/// dimension, and recompose under `src`.
pub open spec fn src_index(src: Seq<usize>, out: Seq<usize>, i: int) -> int
    decreases out.len(),
{
    if out.len() == 0 {
        0
    } else {
        let ol = out.last() as int;
        let sl = if src.len() > 0 {
            src.last() as int
        } else {
            1
        };
        let digit = i % ol;
        let sdigit = if sl == 1 {
            0
        } else {
            digit
        };
        let rest = if src.len() > 0 {
            src.drop_last()
        } else {
            src
        };
        src_index(rest, out.drop_last(), i / ol) * sl + sdigit
    }
}

/// A broadcast row index maps to a row index inside the source shape.
pub proof fn lemma_src_index_bound(src: Seq<usize>, out: Seq<usize>, i: int)
    requires
        src_compatible(src, out),
        0 <= i < shape_product(out),
    ensures
        0 <= src_index(src, out, i) < shape_product(src),
    decreases out.len(),
{
    lemma_shape_product_pos(out);
    if out.len() == 0 {
        assert(src.len() == 0);
    } else {
        let ol = out.last() as int;
        let sl = if src.len() > 0 {
            src.last() as int
        } else {
            1
        };
        let rest = if src.len() > 0 {
            src.drop_last()
        } else {
            src
        };
        assert(out[out.len() - 1] > 0);
        assert(ol > 0);
        let digit = i % ol;
        let rest_i = i / ol;
        assert(0 <= digit < ol);
        // the trailing dimensions align at distance 0 from the right
        assert(dim_from_right(src, 0) == sl);
        assert(dim_from_right(out, 0) == ol);
        assert(sl == ol || sl == 1);
        // recurse on the leading dimensions
        assert(src_compatible(rest, out.drop_last())) by {
            assert forall|k: int|
                0 <= k < out.drop_last().len() implies (dim_from_right(rest, k)
                == dim_from_right(out.drop_last(), k) || dim_from_right(rest, k) == 1) by {
                assert(dim_from_right(rest, k) == dim_from_right(src, k + 1));
                assert(dim_from_right(out.drop_last(), k) == dim_from_right(out, k + 1));
            }
        }
        assert(0 <= rest_i < shape_product(out.drop_last())) by (nonlinear_arith)
            requires
                0 <= i < shape_product(out),
                shape_product(out) == shape_product(out.drop_last()) * ol,
                ol > 0,
                rest_i == i / ol,
        ;
        lemma_src_index_bound(rest, out.drop_last(), rest_i);
        let rec = src_index(rest, out.drop_last(), rest_i);
        let sdigit: int = if sl == 1 {
            0
        } else {
            digit
        };
        assert(0 <= sdigit < sl);
        if src.len() > 0 {
            assert(shape_product(src) == shape_product(rest) * sl);
        } else {
            assert(shape_product(src) == 1 && sl == 1);
            assert(shape_product(src) == shape_product(rest) * sl);
        }
        assert(0 <= rec * sl + sdigit < shape_product(src)) by (nonlinear_arith)
            requires
                0 <= rec < shape_product(rest),
                0 <= sdigit < sl,
                shape_product(src) == shape_product(rest) * sl,
        ;
    }
}

/// Each source shape is compatible (dimension equal or 1) with the
/// broadcast of the two shapes.
pub proof fn lemma_bcast_shape_src_compatible(a: Seq<usize>, b: Seq<usize>)
    requires
        shapes_compatible(a, b),
    ensures
        src_compatible(a, bcast_shape(a, b)),
        src_compatible(b, bcast_shape(a, b)),
{
    let out = bcast_shape(a, b);
    assert(out.len() == max_rank(a, b));
    assert forall|k: int| 0 <= k < out.len() implies dim_from_right(out, k) == bcast_dim(
        a,
        b,
        k,
    ) by {
        assert(out[out.len() - 1 - k] == bcast_dim(a, b, max_rank(a, b) - 1 - (out.len() - 1
            - k)));
    }
}

/// Compute the broadcast shape of two shapes; fails with
/// `InvalidBroadcast` exactly when some aligned pair of dimensions is
/// unequal with neither side 1.
pub fn broadcast_shape(a: &Vec<usize>, b: &Vec<usize>) -> (r: Result<Vec<usize>, Error>)
    ensures
        shapes_compatible(a@, b@) ==> (r matches Ok(s) && s@ == bcast_shape(a@, b@)),
        !shapes_compatible(a@, b@) ==> r == Result::<Vec<usize>, Error>::Err(
            Error::InvalidBroadcast,
        ),
{
    let ra = a.len();
    let rb = b.len();
    let m = if ra >= rb {
        ra
    } else {
        rb
    };
    let mut rev: Vec<usize> = Vec::new();
    let mut k: usize = 0;
    while k < m
        invariant
            k <= m,
            m == max_rank(a@, b@),
            rev@.len() == k,
            forall|j: int| 0 <= j < k ==> #[trigger] dim_ok(dim_from_right(a@, j), dim_from_right(b@, j)),
            forall|j: int| 0 <= j < k ==> rev@[j] == bcast_dim(a@, b@, j),
        decreases m - k,
    {
        let da = if k < a.len() {
            a[a.len() - 1 - k]
        } else {
            1
        };
        let db = if k < b.len() {
            b[b.len() - 1 - k]
        } else {
            1
        };
        proof {
            assert(da == dim_from_right(a@, k as int));
            assert(db == dim_from_right(b@, k as int));
        }
        if !(da == db || da == 1 || db == 1) {
            proof {
                assert(!dim_ok(dim_from_right(a@, k as int), dim_from_right(b@, k as int)));
            }
            return Err(Error::InvalidBroadcast);
        }
        if da == 1 {
            rev.push(db);
        } else {
            rev.push(da);
        }
        proof {
            assert(rev@[k as int] == bcast_dim(a@, b@, k as int));
            assert(dim_ok(dim_from_right(a@, k as int), dim_from_right(b@, k as int)));
        }
        k = k + 1;
    }
    proof {
        assert forall|j: int|
            0 <= j < max_rank(a@, b@) implies dim_ok(
            dim_from_right(a@, j),
            dim_from_right(b@, j),
        ) by {
            assert(dim_ok(dim_from_right(a@, j), dim_from_right(b@, j)));
        }
        assert(shapes_compatible(a@, b@));
    }
    let mut out: Vec<usize> = Vec::new();
    let mut j: usize = 0;
    while j < m
        invariant
            j <= m,
            m == max_rank(a@, b@),
            rev@.len() == m,
            forall|t: int| 0 <= t < m ==> rev@[t] == bcast_dim(a@, b@, t),
            out@.len() == j,
            forall|t: int| 0 <= t < j ==> out@[t] == bcast_dim(a@, b@, m - 1 - t),
        decreases m - j,
    {
        out.push(rev[m - 1 - j]);
        j = j + 1;
    }
    proof {
        assert(out@ =~= bcast_shape(a@, b@));
    }
    Ok(out)
}

/// The number of elements a shape describes, or `None` if it does not fit
/// the machine (its true product still exceeds every machine length).
pub fn checked_shape_product(s: &Vec<usize>) -> (r: Option<usize>)
    ensures
        match r {
            Some(p) => p == shape_product(s@),
            None => shape_product(s@) > usize::MAX,
        },
{
    // a zero dimension makes the whole product zero, however large the rest
    let mut k: usize = 0;
    while k < s.len()
        invariant
            k <= s@.len(),
            forall|i: int| 0 <= i < k ==> s@[i] > 0,
        decreases s@.len() - k,
    {
        if s[k] == 0 {
            proof {
                lemma_shape_product_pos(s@);
            }
            return Some(0);
        }
        k = k + 1;
    }
    let mut p: usize = 1;
    let mut j: usize = 0;
    while j < s.len()
        invariant
            j <= s@.len(),
            forall|i: int| 0 <= i < s@.len() ==> s@[i] > 0,
            p == shape_product(s@.take(j as int)),
            p >= 1,
        decreases s@.len() - j,
    {
        let ghost pre = p as int;
        match p.checked_mul(s[j]) {
            Some(q) => {
                proof {
                    assert(s@.take(j + 1).drop_last() =~= s@.take(j as int));
                    assert(s@.take(j + 1).last() == s@[j as int]);
                    assert(q >= 1) by (nonlinear_arith)
                        requires
                            q == pre * s@[j as int],
                            pre >= 1,
                            s@[j as int] >= 1,
                    ;
                }
                p = q;
            },
            None => {
                proof {
                    assert(s@.take(j + 1).drop_last() =~= s@.take(j as int));
                    assert(shape_product(s@.take(j + 1)) > usize::MAX) by (nonlinear_arith)
                        requires
                            shape_product(s@.take(j + 1)) == pre * s@[j as int],
                            pre * s@[j as int] > usize::MAX,
                    ;
                    lemma_take_product_monotone(s@, j + 1);
                }
                return None;
            },
        }
        j = j + 1;
    }
    proof {
        assert(s@.take(s@.len() as int) =~= s@);
    }
    Some(p)
}

/// With positive dimensions, the product of a prefix never exceeds the
/// product of the whole shape.
pub proof fn lemma_take_product_monotone(s: Seq<usize>, j: int)
    requires
        0 <= j <= s.len(),
        forall|i: int| 0 <= i < s.len() ==> s[i] > 0,
    ensures
        shape_product(s.take(j)) <= shape_product(s),
        shape_product(s.take(j)) >= 1,
    decreases s.len() - j,
{
    assert forall|i: int| 0 <= i < s.take(j).len() implies s.take(j)[i] > 0 by {
        assert(s.take(j)[i] == s[i]);
    }
    lemma_shape_product_pos(s.take(j));
    if j == s.len() {
        assert(s.take(j) =~= s);
    } else {
        lemma_take_product_monotone(s, j + 1);
        assert(s.take(j + 1).drop_last() =~= s.take(j));
        assert(s.take(j + 1).last() == s[j]);
        assert(shape_product(s.take(j)) <= shape_product(s.take(j + 1))) by (nonlinear_arith)
            requires
                shape_product(s.take(j + 1)) == shape_product(s.take(j)) * s[j],
                shape_product(s.take(j)) >= 1,
                s[j] >= 1,
        ;
    }
}

} // verus!
