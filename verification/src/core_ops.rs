//! The reference kernel: a broadcasted dot product.
//!
//! The element-wise dot is a capability of the element type ([`Dot`]); the
//! kernel broadcasts the leading dimensions of the two shapes, contracts
//! the trailing dimension, and fills a flat row-major output. The pure form
//! ([`bcast_dot`]) works on host vectors; the buffer form wraps it for
//! locked buffers.

use crate::broadcast::{
    bcast_shape, checked_shape_product, dim_from_right, shape_product, shapes_compatible,
    src_compatible, src_index, broadcast_shape, lemma_bcast_shape_src_compatible,
    lemma_shape_product_pos, lemma_src_index_bound,
};
use crate::buffer::{
    some_all, sync_spec, sync_to_vec_spec, BufState, Buffer, BufferDevice, Error,
    LockedBuffer,
};
use crate::native;
use vstd::prelude::*;

verus! {

/// An element type with a dot-product primitive over equal-length runs.
pub trait Dot: Sized {
    /// What the primitive returns.
    spec fn dot_spec(a: Seq<Self>, b: Seq<Self>) -> Self;

    /// The dot product of two equal-length runs.
    fn dot(a: &[Self], b: &[Self]) -> (r: Self)
        requires
            a@.len() == b@.len(),
        ensures
            r == Self::dot_spec(a@, b@),
    ;
}

/// The dot product of two runs of signed 64-bit integers, accumulated with
/// wrapping arithmetic, aligned at their trailing ends.
pub open spec fn dot_i64(a: Seq<i64>, b: Seq<i64>) -> i64
    decreases a.len(),
{
    if a.len() == 0 || b.len() == 0 {
        0
    } else {
        dot_i64(a.drop_last(), b.drop_last()).wrapping_add(a.last().wrapping_mul(b.last()))
    }
}

/// Extending two equal-length prefixes by one pair extends their dot.
proof fn lemma_dot_i64_take(a: Seq<i64>, b: Seq<i64>, j: int)
    requires
        a.len() == b.len(),
        0 <= j < a.len(),
    ensures
        dot_i64(a.take(j + 1), b.take(j + 1)) == dot_i64(a.take(j), b.take(j)).wrapping_add(
            a[j].wrapping_mul(b[j]),
        ),
{
    assert(a.take(j + 1).drop_last() =~= a.take(j));
    assert(b.take(j + 1).drop_last() =~= b.take(j));
}

impl Dot for i64 {
    open spec fn dot_spec(a: Seq<i64>, b: Seq<i64>) -> i64 {
        dot_i64(a, b)
    }

    fn dot(a: &[i64], b: &[i64]) -> (r: i64) {
        let mut acc: i64 = 0;
        let mut j: usize = 0;
        let n = a.len();
        while j < n
            invariant
                n == a@.len(),
                a@.len() == b@.len(),
                j <= n,
                acc == dot_i64(a@.take(j as int), b@.take(j as int)),
            decreases n - j,
        {
            proof {
                lemma_dot_i64_take(a@, b@, j as int);
            }
            acc = acc.wrapping_add(a[j].wrapping_mul(b[j]));
            j = j + 1;
        }
        proof {
            assert(a@.take(n as int) =~= a@);
            assert(b@.take(n as int) =~= b@);
        }
        acc
    }
}

/// The flat row index into `src` that flat row `i` of the broadcast shape
/// `out` reads; the executable form of [`src_index`].
fn src_offset(src: &Vec<usize>, out: &Vec<usize>, i: usize) -> (r: usize)
    requires
        src_compatible(src@, out@),
        (i as int) < shape_product(out@),
        shape_product(src@) <= usize::MAX,
    ensures
        r == src_index(src@, out@, i as int),
        (r as int) < shape_product(src@),
{
    proof {
        lemma_src_index_bound(src@, out@, i as int);
        lemma_shape_product_pos(out@);
        lemma_shape_product_pos(src@);
        assert forall|t: int| 0 <= t < src@.len() implies src@[t] > 0 by {
            assert(dim_from_right(src@, src@.len() - 1 - t) == src@[t]);
            assert(dim_from_right(out@, src@.len() - 1 - t) > 0) by {
                assert(out@[out@.len() - 1 - (src@.len() - 1 - t)] > 0);
            }
        }
        assert(shape_product(src@) > 0);
    }
    let rank_o = out.len();
    let rank_s = src.len();
    let mut cur: usize = i;
    let mut acc: usize = 0;
    let mut stride: usize = 1;
    let mut k: usize = 0;
    proof {
        assert(out@.take(rank_o as int) =~= out@);
        assert(take_rem(src@, 0) =~= src@);
    }
    while k < rank_o
        invariant
            rank_o == out@.len(),
            rank_s == src@.len(),
            rank_s <= rank_o,
            src_compatible(src@, out@),
            k <= rank_o,
            forall|t: int| 0 <= t < out@.len() ==> out@[t] > 0,
            forall|t: int| 0 <= t < src@.len() ==> src@[t] > 0,
            shape_product(src@) <= usize::MAX,
            (cur as int) < shape_product(out@.take(rank_o - k)),
            (acc as int) < stride,
            shape_product(take_rem(src@, k as int)) * stride == shape_product(src@),
            stride <= shape_product(src@),
            src_index(src@, out@, i as int) == src_index(
                take_rem(src@, k as int),
                out@.take(rank_o - k),
                cur as int,
            ) * stride + acc,
        decreases rank_o - k,
    {
        let ghost pre_s = take_rem(src@, k as int);
        let ghost pre_o = out@.take((rank_o - k) as int);
        let ol = out[rank_o - 1 - k];
        let sl = if k < rank_s {
            src[rank_s - 1 - k]
        } else {
            1
        };
        proof {
            assert(pre_o.len() == rank_o - k);
            assert(pre_o.last() == out@[rank_o - 1 - k]);
            assert(ol > 0);
            assert(sl >= 1);
            assert(dim_from_right(src@, k as int) == sl);
            assert(dim_from_right(out@, k as int) == ol);
            assert(sl == ol || sl == 1);
            if k < rank_s {
                assert(pre_s.len() == rank_s - k);
                assert(pre_s.last() == src@[rank_s - 1 - k]);
                assert(take_rem(src@, k + 1) =~= pre_s.drop_last());
            } else {
                assert(pre_s.len() == 0);
                assert(take_rem(src@, k + 1) =~= pre_s);
            }
            assert(pre_o.drop_last() =~= out@.take((rank_o - (k + 1)) as int));
            assert(shape_product(pre_o) == shape_product(pre_o.drop_last()) * ol);
        }
        let digit = cur % ol;
        let new_cur = cur / ol;
        let sdigit = if sl == 1 {
            0
        } else {
            digit
        };
        proof {
            // the recursion step of src_index at this dimension
            assert(src_index(pre_s, pre_o, cur as int) == src_index(
                take_rem(src@, k + 1),
                pre_o.drop_last(),
                cur as int / ol as int,
            ) * sl + (if sl == 1 {
                0int
            } else {
                cur as int % ol as int
            }));
            assert(new_cur as int == cur as int / ol as int);
            assert((new_cur as int) < shape_product(pre_o.drop_last())) by (nonlinear_arith)
                requires
                    0 <= (cur as int) && (cur as int) < shape_product(pre_o),
                    shape_product(pre_o) == shape_product(pre_o.drop_last()) * ol,
                    ol > 0,
                    new_cur as int == cur as int / ol as int,
            ;
            // the new stride still divides the source product
            assert(shape_product(take_rem(src@, k + 1)) * (sl * stride) == shape_product(
                src@,
            )) by (nonlinear_arith)
                requires
                    shape_product(pre_s) * stride == shape_product(src@),
                    shape_product(pre_s) == if k < rank_s {
                        shape_product(take_rem(src@, k + 1)) * sl
                    } else {
                        shape_product(take_rem(src@, k + 1)) * sl
                    },
            ;
            lemma_shape_product_pos(take_rem(src@, k + 1));
            assert forall|t: int|
                0 <= t < take_rem(src@, k + 1).len() implies #[trigger] take_rem(src@, k + 1)[t]
                > 0 by {
                assert(take_rem(src@, k + 1)[t] == src@[t]);
            }
            assert(shape_product(take_rem(src@, k + 1)) >= 1);
            assert(sl * stride <= shape_product(src@)) by (nonlinear_arith)
                requires
                    shape_product(take_rem(src@, k + 1)) * (sl * stride) == shape_product(src@),
                    shape_product(take_rem(src@, k + 1)) >= 1,
                    sl * stride >= 0,
            ;
            // the accumulator stays below the new stride
            assert(acc + sdigit * stride < sl * stride) by (nonlinear_arith)
                requires
                    (acc as int) < stride,
                    0 <= sdigit as int,
                    sdigit as int <= sl - 1,
                    stride >= 1,
            ;
            // and the flat index is preserved across the step
            assert(src_index(src@, out@, i as int) == src_index(
                take_rem(src@, k + 1),
                pre_o.drop_last(),
                new_cur as int,
            ) * (sl * stride) + (acc + sdigit * stride)) by (nonlinear_arith)
                requires
                    src_index(src@, out@, i as int) == src_index(pre_s, pre_o, cur as int)
                        * stride + acc,
                    src_index(pre_s, pre_o, cur as int) == src_index(
                        take_rem(src@, k + 1),
                        pre_o.drop_last(),
                        new_cur as int,
                    ) * sl + sdigit,
            ;
        }
        proof {
            assert(stride * sl <= usize::MAX) by (nonlinear_arith)
                requires
                    sl * stride <= shape_product(src@),
                    shape_product(src@) <= usize::MAX,
            ;
            assert(acc + sdigit * stride < stride * sl) by (nonlinear_arith)
                requires
                    (acc as int) < stride,
                    0 <= (sdigit as int),
                    (sdigit as int) <= sl - 1,
                    stride >= 1,
            ;
        }
        acc = acc + sdigit * stride;
        stride = stride * sl;
        cur = new_cur;
        k = k + 1;
    }
    proof {
        assert(out@.take((rank_o - k) as int) =~= Seq::<usize>::empty());
        assert(src_index(take_rem(src@, k as int), out@.take((rank_o - k) as int), cur as int)
            == 0);
    }
    acc
}

/// The first `len - k` dimensions of a shape: what is left to process after
/// `k` trailing dimensions have been handled (empty once `k` passes the
/// rank).
pub open spec fn take_rem(s: Seq<usize>, k: int) -> Seq<usize> {
    if k < s.len() {
        s.take(s.len() - k)
    } else {
        s.take(0)
    }
}

/// What the kernel accepts: both shapes have a trailing (contraction)
/// dimension and agree on it, their leading dimensions broadcast together,
/// and each flat data row holds exactly as many elements as its shape says.
pub open spec fn dot_inputs_ok<T>(sa: Seq<usize>, a: Seq<T>, sb: Seq<usize>, b: Seq<T>) -> bool {
    &&& sa.len() >= 1
    &&& sb.len() >= 1
    &&& sa.last() == sb.last()
    &&& shapes_compatible(sa.drop_last(), sb.drop_last())
    &&& a.len() == shape_product(sa)
    &&& b.len() == shape_product(sb)
}

/// The result shape: the broadcast of the leading dimensions, with the
/// contraction dimension gone.
pub open spec fn dot_out_shape(sa: Seq<usize>, sb: Seq<usize>) -> Seq<usize> {
    bcast_shape(sa.drop_last(), sb.drop_last())
}

/// Row `r` of a flat row-major array whose rows have `k` elements.
pub open spec fn row_of<T>(data: Seq<T>, k: int, r: int) -> Seq<T> {
    data.subrange(r * k, r * k + k)
}

/// The result values: element `i` is the dot of the rows of `a` and `b`
/// that broadcast row `i` reads.
pub open spec fn dot_out_values<T: Dot>(
    sa: Seq<usize>,
    a: Seq<T>,
    sb: Seq<usize>,
    b: Seq<T>,
) -> Seq<T> {
    let out = dot_out_shape(sa, sb);
    Seq::new(
        shape_product(out) as nat,
        |i: int|
            T::dot_spec(
                row_of(a, sa.last() as int, src_index(sa.drop_last(), out, i)),
                row_of(b, sb.last() as int, src_index(sb.drop_last(), out, i)),
            ),
    )
}

/// Copy row `r` (of `k` elements) out of a flat row-major array.
fn copy_row<T: Copy>(data: &Vec<T>, k: usize, r: usize) -> (row: Vec<T>)
    requires
        (r as int) * (k as int) + (k as int) <= data@.len(),
    ensures
        row@ == row_of(data@, k as int, r as int),
{
    let data_len = data.len();
    proof {
        assert((r as int) * (k as int) >= 0) by (nonlinear_arith);
    }
    let start = r * k;
    let mut row: Vec<T> = Vec::new();
    let mut j: usize = 0;
    while j < k
        invariant
            data_len == data@.len(),
            (start as int) == (r as int) * (k as int),
            (start as int) + (k as int) <= data@.len(),
            j <= k,
            row@.len() == j,
            forall|t: int| 0 <= t < j ==> row@[t] == data@[start + t],
        decreases k - j,
    {
        row.push(data[start + j]);
        j = j + 1;
    }
    proof {
        assert(row@ =~= row_of(data@, k as int, r as int));
    }
    row
}

/// The broadcasted dot product on host data: broadcast the leading
/// dimensions of the two shapes, contract the trailing one, and return the
/// result shape with the result values, flat and row-major. Fails with
/// `InvalidBroadcast` exactly when the inputs break a shape rule (rank,
/// contraction mismatch, incompatible leading dimensions, data length not
/// matching its shape) or when the result would not fit the machine.
pub fn bcast_dot<T: Dot + Copy>(
    shape_a: &Vec<usize>,
    a: &Vec<T>,
    shape_b: &Vec<usize>,
    b: &Vec<T>,
) -> (r: Result<(Vec<usize>, Vec<T>), Error>)
    ensures
        ({
            let good = dot_inputs_ok(shape_a@, a@, shape_b@, b@) && shape_product(
                dot_out_shape(shape_a@, shape_b@),
            ) <= usize::MAX;
            &&& good ==> (r matches Ok(p) && p.0@ == dot_out_shape(shape_a@, shape_b@) && p.1@
                == dot_out_values(shape_a@, a@, shape_b@, b@))
            &&& !good ==> r == Result::<(Vec<usize>, Vec<T>), Error>::Err(Error::InvalidBroadcast)
        }),
{
    if shape_a.len() == 0 || shape_b.len() == 0 {
        return Err(Error::InvalidBroadcast);
    }
    let k_dim = shape_a[shape_a.len() - 1];
    if k_dim != shape_b[shape_b.len() - 1] {
        return Err(Error::InvalidBroadcast);
    }
    let lead_a = copy_lead(shape_a);
    let lead_b = copy_lead(shape_b);
    let out_lead = match broadcast_shape(&lead_a, &lead_b) {
        Ok(s) => s,
        Err(_) => {
            return Err(Error::InvalidBroadcast);
        },
    };
    let len_a_pre = a.len();
    let len_b_pre = b.len();
    match checked_shape_product(shape_a) {
        Some(p) => {
            if p != a.len() {
                proof {
                    assert(a@.len() != shape_product(shape_a@));
                }
                return Err(Error::InvalidBroadcast);
            }
        },
        None => {
            proof {
                assert(a@.len() != shape_product(shape_a@));
            }
            return Err(Error::InvalidBroadcast);
        },
    }
    match checked_shape_product(shape_b) {
        Some(p) => {
            if p != b.len() {
                proof {
                    assert(b@.len() != shape_product(shape_b@));
                }
                return Err(Error::InvalidBroadcast);
            }
        },
        None => {
            proof {
                assert(b@.len() != shape_product(shape_b@));
            }
            return Err(Error::InvalidBroadcast);
        },
    }
    let len_a = a.len();
    let len_b = b.len();
    proof {
        assert(len_a == a@.len());
        assert(len_b == b@.len());
    }
    let n = match checked_shape_product(&out_lead) {
        Some(n) => n,
        None => {
            return Err(Error::InvalidBroadcast);
        },
    };
    proof {
        assert(dot_inputs_ok(shape_a@, a@, shape_b@, b@));
        lemma_bcast_shape_src_compatible(lead_a@, lead_b@);
        assert(shape_product(shape_a@) == shape_product(lead_a@) * (k_dim as int));
        assert(shape_product(shape_b@) == shape_product(lead_b@) * (k_dim as int));
        lemma_shape_product_pos(lead_a@);
        lemma_shape_product_pos(lead_b@);
        if k_dim > 0 {
            assert(shape_product(lead_a@) <= usize::MAX) by (nonlinear_arith)
                requires
                    shape_product(lead_a@) * (k_dim as int) <= usize::MAX,
                    k_dim >= 1,
                    shape_product(lead_a@) >= 0,
            ;
            assert(shape_product(lead_b@) <= usize::MAX) by (nonlinear_arith)
                requires
                    shape_product(lead_b@) * (k_dim as int) <= usize::MAX,
                    k_dim >= 1,
                    shape_product(lead_b@) >= 0,
            ;
        }
    }
    let ghost out_shape = dot_out_shape(shape_a@, shape_b@);
    let mut c: Vec<T> = Vec::new();
    let mut i: usize = 0;
    while i < n
        invariant
            out_lead@ == out_shape,
            out_shape == dot_out_shape(shape_a@, shape_b@),
            lead_a@ == shape_a@.drop_last(),
            lead_b@ == shape_b@.drop_last(),
            (k_dim as int) == shape_a@.last(),
            (k_dim as int) == shape_b@.last(),
            (n as int) == shape_product(out_shape),
            dot_inputs_ok(shape_a@, a@, shape_b@, b@),
            src_compatible(lead_a@, out_shape),
            src_compatible(lead_b@, out_shape),
            k_dim > 0 ==> shape_product(lead_a@) <= usize::MAX,
            k_dim > 0 ==> shape_product(lead_b@) <= usize::MAX,
            i <= n,
            c@.len() == i,
            forall|t: int| 0 <= t < i ==> c@[t] == dot_out_values(shape_a@, a@, shape_b@, b@)[t],
        decreases n - i,
    {
        if k_dim == 0 {
            let row_a: Vec<T> = Vec::new();
            let row_b: Vec<T> = Vec::new();
            let v = T::dot(row_a.as_slice(), row_b.as_slice());
            proof {
                let out = dot_out_shape(shape_a@, shape_b@);
                assert(row_of(a@, 0, src_index(lead_a@, out, i as int)) =~= Seq::<T>::empty());
                assert(row_of(b@, 0, src_index(lead_b@, out, i as int)) =~= Seq::<T>::empty());
                assert(row_a@ =~= Seq::<T>::empty());
                assert(row_b@ =~= Seq::<T>::empty());
            }
            c.push(v);
        } else {
            let ia = src_offset(&lead_a, &out_lead, i);
            let ib = src_offset(&lead_b, &out_lead, i);
            proof {
                assert((ia as int) * (k_dim as int) + (k_dim as int) <= a@.len())
                    by (nonlinear_arith)
                    requires
                        (ia as int) < shape_product(lead_a@),
                        a@.len() == shape_product(lead_a@) * (k_dim as int),
                        k_dim >= 1,
                ;
                assert((ib as int) * (k_dim as int) + (k_dim as int) <= b@.len())
                    by (nonlinear_arith)
                    requires
                        (ib as int) < shape_product(lead_b@),
                        b@.len() == shape_product(lead_b@) * (k_dim as int),
                        k_dim >= 1,
                ;
            }
            let row_a = copy_row(a, k_dim, ia);
            let row_b = copy_row(b, k_dim, ib);
            let v = T::dot(row_a.as_slice(), row_b.as_slice());
            c.push(v);
        }
        i = i + 1;
    }
    proof {
        assert(c@ =~= dot_out_values(shape_a@, a@, shape_b@, b@));
    }
    Ok((out_lead, c))
}

/// The aligned row pairs of the broadcasted dot, for a caller whose
/// element-wise dot primitive lives outside this crate (a BLAS call, a
/// float): the result shape, and for each of its flat rows the pair of
/// source rows the dot would contract. Accepts and fails exactly as
/// [`bcast_dot`] does.
pub fn bcast_rows<T: Copy>(
    shape_a: &Vec<usize>,
    a: &Vec<T>,
    shape_b: &Vec<usize>,
    b: &Vec<T>,
) -> (r: Result<(Vec<usize>, Vec<(Vec<T>, Vec<T>)>), Error>)
    ensures
        ({
            let good = dot_inputs_ok(shape_a@, a@, shape_b@, b@) && shape_product(
                dot_out_shape(shape_a@, shape_b@),
            ) <= usize::MAX;
            let out = dot_out_shape(shape_a@, shape_b@);
            &&& good ==> (r matches Ok(p) && p.0@ == out && p.1@.len() == shape_product(out)
                && (forall|i: int|
                0 <= i < p.1@.len() ==> (#[trigger] p.1@[i]).0@ == row_of(
                    a@,
                    shape_a@.last() as int,
                    src_index(shape_a@.drop_last(), out, i),
                ) && p.1@[i].1@ == row_of(
                    b@,
                    shape_b@.last() as int,
                    src_index(shape_b@.drop_last(), out, i),
                )))
            &&& !good ==> r == Result::<(Vec<usize>, Vec<(Vec<T>, Vec<T>)>), Error>::Err(
                Error::InvalidBroadcast,
            )
        }),
{
    if shape_a.len() == 0 || shape_b.len() == 0 {
        return Err(Error::InvalidBroadcast);
    }
    let k_dim = shape_a[shape_a.len() - 1];
    if k_dim != shape_b[shape_b.len() - 1] {
        return Err(Error::InvalidBroadcast);
    }
    let lead_a = copy_lead(shape_a);
    let lead_b = copy_lead(shape_b);
    let out_lead = match broadcast_shape(&lead_a, &lead_b) {
        Ok(s) => s,
        Err(_) => {
            return Err(Error::InvalidBroadcast);
        },
    };
    let len_a_pre = a.len();
    let len_b_pre = b.len();
    match checked_shape_product(shape_a) {
        Some(p) => {
            if p != a.len() {
                proof {
                    assert(a@.len() != shape_product(shape_a@));
                }
                return Err(Error::InvalidBroadcast);
            }
        },
        None => {
            proof {
                assert(a@.len() != shape_product(shape_a@));
            }
            return Err(Error::InvalidBroadcast);
        },
    }
    match checked_shape_product(shape_b) {
        Some(p) => {
            if p != b.len() {
                proof {
                    assert(b@.len() != shape_product(shape_b@));
                }
                return Err(Error::InvalidBroadcast);
            }
        },
        None => {
            proof {
                assert(b@.len() != shape_product(shape_b@));
            }
            return Err(Error::InvalidBroadcast);
        },
    }
    let n = match checked_shape_product(&out_lead) {
        Some(n) => n,
        None => {
            return Err(Error::InvalidBroadcast);
        },
    };
    proof {
        assert(dot_inputs_ok(shape_a@, a@, shape_b@, b@));
        lemma_bcast_shape_src_compatible(lead_a@, lead_b@);
        assert(shape_product(shape_a@) == shape_product(lead_a@) * (k_dim as int));
        assert(shape_product(shape_b@) == shape_product(lead_b@) * (k_dim as int));
        lemma_shape_product_pos(lead_a@);
        lemma_shape_product_pos(lead_b@);
        if k_dim > 0 {
            assert(shape_product(lead_a@) <= usize::MAX) by (nonlinear_arith)
                requires
                    shape_product(lead_a@) * (k_dim as int) <= usize::MAX,
                    k_dim >= 1,
                    shape_product(lead_a@) >= 0,
            ;
            assert(shape_product(lead_b@) <= usize::MAX) by (nonlinear_arith)
                requires
                    shape_product(lead_b@) * (k_dim as int) <= usize::MAX,
                    k_dim >= 1,
                    shape_product(lead_b@) >= 0,
            ;
        }
    }
    let ghost out_shape = dot_out_shape(shape_a@, shape_b@);
    let mut pairs: Vec<(Vec<T>, Vec<T>)> = Vec::new();
    let mut i: usize = 0;
    while i < n
        invariant
            out_lead@ == out_shape,
            out_shape == dot_out_shape(shape_a@, shape_b@),
            lead_a@ == shape_a@.drop_last(),
            lead_b@ == shape_b@.drop_last(),
            (k_dim as int) == shape_a@.last(),
            (k_dim as int) == shape_b@.last(),
            (n as int) == shape_product(out_shape),
            dot_inputs_ok(shape_a@, a@, shape_b@, b@),
            src_compatible(lead_a@, out_shape),
            src_compatible(lead_b@, out_shape),
            k_dim > 0 ==> shape_product(lead_a@) <= usize::MAX,
            k_dim > 0 ==> shape_product(lead_b@) <= usize::MAX,
            i <= n,
            pairs@.len() == i,
            forall|t: int|
                0 <= t < i ==> (#[trigger] pairs@[t]).0@ == row_of(
                    a@,
                    shape_a@.last() as int,
                    src_index(lead_a@, out_shape, t),
                ) && pairs@[t].1@ == row_of(
                    b@,
                    shape_b@.last() as int,
                    src_index(lead_b@, out_shape, t),
                ),
        decreases n - i,
    {
        if k_dim == 0 {
            let row_a: Vec<T> = Vec::new();
            let row_b: Vec<T> = Vec::new();
            proof {
                assert(row_of(a@, 0, src_index(lead_a@, out_shape, i as int)) =~= Seq::<
                    T,
                >::empty());
                assert(row_of(b@, 0, src_index(lead_b@, out_shape, i as int)) =~= Seq::<
                    T,
                >::empty());
                assert(row_a@ =~= Seq::<T>::empty());
                assert(row_b@ =~= Seq::<T>::empty());
            }
            pairs.push((row_a, row_b));
        } else {
            let ia = src_offset(&lead_a, &out_lead, i);
            let ib = src_offset(&lead_b, &out_lead, i);
            proof {
                assert((ia as int) * (k_dim as int) + (k_dim as int) <= a@.len())
                    by (nonlinear_arith)
                    requires
                        (ia as int) < shape_product(lead_a@),
                        a@.len() == shape_product(lead_a@) * (k_dim as int),
                        k_dim >= 1,
                ;
                assert((ib as int) * (k_dim as int) + (k_dim as int) <= b@.len())
                    by (nonlinear_arith)
                    requires
                        (ib as int) < shape_product(lead_b@),
                        b@.len() == shape_product(lead_b@) * (k_dim as int),
                        k_dim >= 1,
                ;
            }
            let row_a = copy_row(a, k_dim, ia);
            let row_b = copy_row(b, k_dim, ib);
            pairs.push((row_a, row_b));
        }
        i = i + 1;
    }
    Ok((out_lead, pairs))
}

/// Syncing a buffer to a device and then reading it out: the values its
/// latest copy held, or the first failure on the way.
pub open spec fn kernel_read_spec<T>(s: BufState<T>, dev: BufferDevice) -> Result<Seq<T>, Error> {
    match sync_spec(s, dev).1 {
        Err(e) => Err(e),
        Ok(_) => sync_to_vec_spec(sync_spec(s, dev).0),
    }
}

/// What the buffer kernel returns, over the four input buffer states: the
/// first synchronization failure; else the first read failure, in input
/// order; else the broadcasted dot of the values read, or
/// `InvalidBroadcast` where they break a shape rule.
pub open spec fn bcast_dot_outcome<T: Dot>(
    ssa: BufState<usize>,
    sda: BufState<T>,
    ssb: BufState<usize>,
    sdb: BufState<T>,
    dev: BufferDevice,
) -> Result<(Seq<usize>, Seq<T>), Error> {
    if sync_spec(ssa, dev).1 is Err || sync_spec(sda, dev).1 is Err || sync_spec(ssb, dev).1 is Err
        || sync_spec(sdb, dev).1 is Err {
        Err(Error::InvalidDevice)
    } else {
        match sync_to_vec_spec(sync_spec(ssa, dev).0) {
            Err(e) => Err(e),
            Ok(sa_v) => match sync_to_vec_spec(sync_spec(sda, dev).0) {
                Err(e) => Err(e),
                Ok(a_v) => match sync_to_vec_spec(sync_spec(ssb, dev).0) {
                    Err(e) => Err(e),
                    Ok(sb_v) => match sync_to_vec_spec(sync_spec(sdb, dev).0) {
                        Err(e) => Err(e),
                        Ok(b_v) => {
                            if dot_inputs_ok(sa_v, a_v, sb_v, b_v) && shape_product(
                                dot_out_shape(sa_v, sb_v),
                            ) <= usize::MAX {
                                Ok((dot_out_shape(sa_v, sb_v), dot_out_values(sa_v, a_v, sb_v, b_v)))
                            } else {
                                Err(Error::InvalidBroadcast)
                            }
                        },
                    },
                },
            },
        }
    }
}

/// The broadcasted dot product over locked buffers: synchronize the four
/// inputs to `dev`, read their values there, compute, and hand the result
/// shape and data back as freshly allocated locked buffers on `dev`. The
/// inputs come back synchronized to `dev` whatever happens; on failure the
/// outcome is exactly what [`bcast_dot_outcome`] names over the input
/// states.
pub fn bcast_dot_buffers<T: Dot + Copy>(
    dev: &native::Device,
    shape_a: &mut LockedBuffer<usize>,
    a: &mut LockedBuffer<T>,
    shape_b: &mut LockedBuffer<usize>,
    b: &mut LockedBuffer<T>,
) -> (r: Result<(LockedBuffer<usize>, LockedBuffer<T>), Error>)
    requires
        old(shape_a).inv(),
        old(a).inv(),
        old(shape_b).inv(),
        old(b).inv(),
    ensures
        final(shape_a).inv() && final(a).inv() && final(shape_b).inv() && final(b).inv(),
        final(shape_a).state() == sync_spec(old(shape_a).state(), BufferDevice::Native(*dev)).0,
        final(a).state() == sync_spec(old(a).state(), BufferDevice::Native(*dev)).0,
        final(shape_b).state() == sync_spec(old(shape_b).state(), BufferDevice::Native(*dev)).0,
        final(b).state() == sync_spec(old(b).state(), BufferDevice::Native(*dev)).0,
        ({
            let outcome = bcast_dot_outcome(
                old(shape_a).state(),
                old(a).state(),
                old(shape_b).state(),
                old(b).state(),
                BufferDevice::Native(*dev),
            );
            match r {
                Ok(p) => outcome matches Ok(vals) && p.0.inv() && p.1.inv() && p.0.state()
                    == (BufState {
                    size: vals.0.len(),
                    copies: Map::<BufferDevice, Seq<Option<usize>>>::empty().insert(
                        BufferDevice::Native(*dev),
                        some_all(vals.0),
                    ),
                    latest: BufferDevice::Native(*dev),
                }) && p.1.state() == (BufState {
                    size: vals.1.len(),
                    copies: Map::<BufferDevice, Seq<Option<T>>>::empty().insert(
                        BufferDevice::Native(*dev),
                        some_all(vals.1),
                    ),
                    latest: BufferDevice::Native(*dev),
                }),
                Err(e) => outcome == Err::<(Seq<usize>, Seq<T>), Error>(e),
            }
        }),
{
    let bdev = BufferDevice::Native(*dev);
    let r1 = shape_a.sync(&bdev);
    let r2 = a.sync(&bdev);
    let r3 = shape_b.sync(&bdev);
    let r4 = b.sync(&bdev);
    match r1 {
        Err(e) => {
            return Err(e);
        },
        Ok(_) => {},
    }
    match r2 {
        Err(e) => {
            return Err(e);
        },
        Ok(_) => {},
    }
    match r3 {
        Err(e) => {
            return Err(e);
        },
        Ok(_) => {},
    }
    match r4 {
        Err(e) => {
            return Err(e);
        },
        Ok(_) => {},
    }
    let sa_v = match shape_a.sync_to_vec() {
        Ok(v) => v,
        Err(e) => {
            return Err(e);
        },
    };
    let a_v = match a.sync_to_vec() {
        Ok(v) => v,
        Err(e) => {
            return Err(e);
        },
    };
    let sb_v = match shape_b.sync_to_vec() {
        Ok(v) => v,
        Err(e) => {
            return Err(e);
        },
    };
    let b_v = match b.sync_to_vec() {
        Ok(v) => v,
        Err(e) => {
            return Err(e);
        },
    };
    let (sc_vec, c_vec) = match bcast_dot::<T>(&sa_v, &a_v, &sb_v, &b_v) {
        Ok(p) => p,
        Err(e) => {
            return Err(e);
        },
    };
    let sc_buf = match Buffer::<usize>::from_vec_native(dev, sc_vec) {
        Ok(bf) => bf,
        Err(e) => {
            return Err(e);
        },
    };
    let c_buf = match Buffer::<T>::from_vec_native(dev, c_vec) {
        Ok(bf) => bf,
        Err(e) => {
            return Err(e);
        },
    };
    let mut sc_buf = sc_buf;
    let mut c_buf = c_buf;
    let sc_locked = match sc_buf.try_lock() {
        Ok(g) => g,
        Err(_) => {
            proof {
                assert(false);
            }
            return Err(Error::InvalidLock);
        },
    };
    let c_locked = match c_buf.try_lock() {
        Ok(g) => g,
        Err(_) => {
            proof {
                assert(false);
            }
            return Err(Error::InvalidLock);
        },
    };
    Ok((sc_locked, c_locked))
}

/// What the prealloc kernel form returns, over the six input buffer states:
/// the first synchronization failure; else the first input read failure, in
/// input order; else `InvalidBroadcast` where the inputs break a shape rule;
/// else `InvalidDevice` where an output buffer holds no copy on the device;
/// else the two output states, their device copies overwritten from the
/// result shape and values (a result longer than an output is truncated to
/// it, one shorter leaves the output's tail as it was).
pub open spec fn bcast_dot_into_outcome<T: Dot>(
    ssa: BufState<usize>,
    sda: BufState<T>,
    ssb: BufState<usize>,
    sdb: BufState<T>,
    ssc: BufState<usize>,
    sdc: BufState<T>,
    dev: BufferDevice,
) -> Result<(BufState<usize>, BufState<T>), Error> {
    if sync_spec(ssa, dev).1 is Err || sync_spec(sda, dev).1 is Err || sync_spec(ssb, dev).1 is Err
        || sync_spec(sdb, dev).1 is Err || sync_spec(ssc, dev).1 is Err || sync_spec(
        sdc,
        dev,
    ).1 is Err {
        Err(Error::InvalidDevice)
    } else {
        match sync_to_vec_spec(sync_spec(ssa, dev).0) {
            Err(e) => Err(e),
            Ok(sa_v) => match sync_to_vec_spec(sync_spec(sda, dev).0) {
                Err(e) => Err(e),
                Ok(a_v) => match sync_to_vec_spec(sync_spec(ssb, dev).0) {
                    Err(e) => Err(e),
                    Ok(sb_v) => match sync_to_vec_spec(sync_spec(sdb, dev).0) {
                        Err(e) => Err(e),
                        Ok(b_v) => {
                            if !(dot_inputs_ok(sa_v, a_v, sb_v, b_v) && shape_product(
                                dot_out_shape(sa_v, sb_v),
                            ) <= usize::MAX) {
                                Err(Error::InvalidBroadcast)
                            } else {
                                let out = dot_out_shape(sa_v, sb_v);
                                let vals = dot_out_values(sa_v, a_v, sb_v, b_v);
                                let sc1 = sync_spec(ssc, dev).0;
                                let sdc1 = sync_spec(sdc, dev).0;
                                if !sc1.copies.contains_key(dev) || !sdc1.copies.contains_key(
                                    dev,
                                ) {
                                    Err(Error::InvalidDevice)
                                } else {
                                    Ok(
                                        (
                                            BufState {
                                                size: sc1.size,
                                                copies: sc1.copies.insert(
                                                    dev,
                                                    native::overwrite_prefix(sc1.copies[dev], out),
                                                ),
                                                latest: sc1.latest,
                                            },
                                            BufState {
                                                size: sdc1.size,
                                                copies: sdc1.copies.insert(
                                                    dev,
                                                    native::overwrite_prefix(sdc1.copies[dev], vals),
                                                ),
                                                latest: sdc1.latest,
                                            },
                                        ),
                                    )
                                }
                            }
                        },
                    },
                },
            },
        }
    }
}

/// The broadcasted dot product into preallocated outputs: synchronize all
/// six buffers to `dev`, read the four inputs there, compute, and overwrite
/// the leading slots of the two output buffers' copies on `dev` with the
/// result shape and values. All six buffers stay with the caller, locked
/// and synchronized to `dev`; the outcome is exactly what
/// [`bcast_dot_into_outcome`] names over the input states.
pub fn bcast_dot_into<T: Dot + Copy>(
    dev: &native::Device,
    shape_a: &mut LockedBuffer<usize>,
    a: &mut LockedBuffer<T>,
    shape_b: &mut LockedBuffer<usize>,
    b: &mut LockedBuffer<T>,
    shape_c: &mut LockedBuffer<usize>,
    c: &mut LockedBuffer<T>,
) -> (r: Result<(), Error>)
    requires
        old(shape_a).inv(),
        old(a).inv(),
        old(shape_b).inv(),
        old(b).inv(),
        old(shape_c).inv(),
        old(c).inv(),
    ensures
        final(shape_a).inv() && final(a).inv() && final(shape_b).inv() && final(b).inv() && final(shape_c).inv() && final(c).inv(),
        final(shape_a).state() == sync_spec(old(shape_a).state(), BufferDevice::Native(*dev)).0,
        final(a).state() == sync_spec(old(a).state(), BufferDevice::Native(*dev)).0,
        final(shape_b).state() == sync_spec(old(shape_b).state(), BufferDevice::Native(*dev)).0,
        final(b).state() == sync_spec(old(b).state(), BufferDevice::Native(*dev)).0,
        ({
            let outcome = bcast_dot_into_outcome(
                old(shape_a).state(),
                old(a).state(),
                old(shape_b).state(),
                old(b).state(),
                old(shape_c).state(),
                old(c).state(),
                BufferDevice::Native(*dev),
            );
            match r {
                Ok(u) => outcome matches Ok(pair) && final(shape_c).state() == pair.0 && final(c).state() == pair.1,
                Err(e) => outcome == Err::<(BufState<usize>, BufState<T>), Error>(e) && final(shape_c).state() == sync_spec(old(shape_c).state(), BufferDevice::Native(*dev)).0 && final(c).state() == sync_spec(old(c).state(), BufferDevice::Native(*dev)).0,
            }
        }),
{
    let bdev = BufferDevice::Native(*dev);
    let r1 = shape_a.sync(&bdev);
    let r2 = a.sync(&bdev);
    let r3 = shape_b.sync(&bdev);
    let r4 = b.sync(&bdev);
    let r5 = shape_c.sync(&bdev);
    let r6 = c.sync(&bdev);
    if r1.is_err() || r2.is_err() || r3.is_err() || r4.is_err() || r5.is_err() || r6.is_err() {
        return Err(Error::InvalidDevice);
    }
    let sa_v = match shape_a.sync_to_vec() {
        Ok(v) => v,
        Err(e) => {
            return Err(e);
        },
    };
    let a_v = match a.sync_to_vec() {
        Ok(v) => v,
        Err(e) => {
            return Err(e);
        },
    };
    let sb_v = match shape_b.sync_to_vec() {
        Ok(v) => v,
        Err(e) => {
            return Err(e);
        },
    };
    let b_v = match b.sync_to_vec() {
        Ok(v) => v,
        Err(e) => {
            return Err(e);
        },
    };
    let (out_shape, values) = match bcast_dot::<T>(&sa_v, &a_v, &sb_v, &b_v) {
        Ok(p) => p,
        Err(e) => {
            return Err(e);
        },
    };
    match shape_c.raw().native_memory(dev) {
        Ok(_) => {},
        Err(e) => {
            return Err(e);
        },
    }
    match c.raw().native_memory(dev) {
        Ok(_) => {},
        Err(e) => {
            return Err(e);
        },
    }
    let raw_sc = shape_c.raw_mut();
    match raw_sc.native_memory_mut(dev) {
        Ok(m) => {
            m.write_prefix(&out_shape);
        },
        Err(_) => {
            proof {
                assert(false);
            }
            return Err(Error::InvalidDevice);
        },
    }
    let raw_c = c.raw_mut();
    match raw_c.native_memory_mut(dev) {
        Ok(m) => {
            m.write_prefix(&values);
        },
        Err(_) => {
            proof {
                assert(false);
            }
            return Err(Error::InvalidDevice);
        },
    }
    Ok(())
}

/// Copy all but the trailing dimension of a shape.
fn copy_lead(shape: &Vec<usize>) -> (lead: Vec<usize>)
    requires
        shape@.len() >= 1,
    ensures
        lead@ == shape@.drop_last(),
{
    let mut lead: Vec<usize> = Vec::new();
    let mut j: usize = 0;
    while j < shape.len() - 1
        invariant
            shape@.len() >= 1,
            j <= shape@.len() - 1,
            lead@.len() == j,
            forall|t: int| 0 <= t < j ==> lead@[t] == shape@[t],
        decreases shape@.len() - 1 - j,
    {
        lead.push(shape[j]);
        j = j + 1;
    }
    proof {
        assert(lead@ =~= shape@.drop_last());
    }
    lead
}

} // verus!
