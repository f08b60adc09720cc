//! The aggregator: partitions per-provider outcomes into successes and
//! failures, and computes the elementwise average of the successes.
//!
//! Pure functions: no I/O, no shared state.

use vstd::prelude::*;
use crate::api_error::ApiError;
use crate::api_response::ApiResponse;
use crate::api_response::Status;
use crate::weather_data::WeatherData;
use crate::weather_data::div_toward_zero;

verus! {

/// The forecasts of the providers that succeeded, as sequences of samples,
/// in the providers' original relative order.
pub open spec fn successes_of(rs: Seq<Result<Vec<WeatherData>, ApiError>>) -> Seq<Seq<WeatherData>>
    decreases rs.len(),
{
    if rs.len() == 0 {
        Seq::empty()
    } else {
        let rest = successes_of(rs.drop_last());
        match rs.last() {
            Ok(v) => rest.push(v@),
            Err(_) => rest,
        }
    }
}

/// The errors of the providers that failed, in the providers' original
/// relative order.
pub open spec fn errors_of(rs: Seq<Result<Vec<WeatherData>, ApiError>>) -> Seq<ApiError>
    decreases rs.len(),
{
    if rs.len() == 0 {
        Seq::empty()
    } else {
        let rest = errors_of(rs.drop_last());
        match rs.last() {
            Ok(_) => rest,
            Err(e) => rest.push(e),
        }
    }
}

/// The views of a vector of sample vectors.
pub open spec fn rows_of(ds: Seq<Vec<WeatherData>>) -> Seq<Seq<WeatherData>> {
    ds.map_values(|v: Vec<WeatherData>| v@)
}

/// Partition law: every outcome lands in exactly one bucket, so the bucket
/// lengths add up to the number of outcomes.  Each bucket keeps its
/// elements' original relative order, which is how [`successes_of`] and
/// [`errors_of`] are built.
pub proof fn lemma_partition_law(rs: Seq<Result<Vec<WeatherData>, ApiError>>)
    ensures
        successes_of(rs).len() + errors_of(rs).len() == rs.len(),
    decreases rs.len(),
{
    if rs.len() > 0 {
        lemma_partition_law(rs.drop_last());
    }
}

/// Partition law, order half: each bucket is exactly the input filtered
/// to that bucket's outcomes, so every element keeps its original
/// relative order within its bucket.
pub proof fn lemma_partition_preserves_order(rs: Seq<Result<Vec<WeatherData>, ApiError>>)
    ensures
        successes_of(rs) == rs.filter(|r: Result<Vec<WeatherData>, ApiError>| r is Ok).map_values(
            |r: Result<Vec<WeatherData>, ApiError>| r->Ok_0@,
        ),
        errors_of(rs) == rs.filter(|r: Result<Vec<WeatherData>, ApiError>| r is Err).map_values(
            |r: Result<Vec<WeatherData>, ApiError>| r->Err_0,
        ),
    decreases rs.len(),
{
    reveal(Seq::filter);
    let oks = |r: Result<Vec<WeatherData>, ApiError>| r is Ok;
    let errs = |r: Result<Vec<WeatherData>, ApiError>| r is Err;
    if rs.len() == 0 {
        assert(successes_of(rs) =~= rs.filter(oks).map_values(
            |r: Result<Vec<WeatherData>, ApiError>| r->Ok_0@,
        ));
        assert(errors_of(rs) =~= rs.filter(errs).map_values(
            |r: Result<Vec<WeatherData>, ApiError>| r->Err_0,
        ));
    } else {
        lemma_partition_preserves_order(rs.drop_last());
        assert(successes_of(rs) =~= rs.filter(oks).map_values(
            |r: Result<Vec<WeatherData>, ApiError>| r->Ok_0@,
        ));
        assert(errors_of(rs) =~= rs.filter(errs).map_values(
            |r: Result<Vec<WeatherData>, ApiError>| r->Err_0,
        ));
    }
}

/// Partition a sequence of responses into two parts:
/// a vector of successful responses and a vector of failures,
/// each keeping the input's relative order.
pub fn partition_data(responses: Vec<Result<Vec<WeatherData>, ApiError>>) -> (r: (
    Vec<Vec<WeatherData>>,
    Vec<ApiError>,
))
    ensures
        rows_of(r.0@) == successes_of(responses@),
        r.1@ == errors_of(responses@),
{
    let ghost all = responses@;
    let mut data: Vec<Vec<WeatherData>> = Vec::new();
    let mut errors: Vec<ApiError> = Vec::new();

    for response in iter: responses
        invariant
            iter.seq() == all,
            rows_of(data@) == successes_of(all.take(iter.index() as int)),
            errors@ == errors_of(all.take(iter.index() as int)),
    {
        let ghost i = iter.index() as int;
        proof {
            assert(all.take(i + 1).drop_last() =~= all.take(i));
            assert(all.take(i + 1).last() == all[i]);
        }
        match response {
            Ok(v) => {
                data.push(v);
                proof {
                    assert(rows_of(data@) =~= successes_of(all.take(i + 1)));
                }
            },
            Err(e) => {
                errors.push(e);
            },
        }
    }
    proof {
        assert(all.take(all.len() as int) =~= all);
    }
    (data, errors)
}

/// Length of the shortest row of a non-empty collection of rows.
///
/// Provider rows may legitimately differ in length only when a provider
/// violates its day-window contract; the aggregator follows the policy of
/// truncating to the shortest row, so the averaged sequence pairs entries
/// positionally and never reads past any row's end.
pub open spec fn min_row_len(rows: Seq<Seq<WeatherData>>) -> int
    recommends
        rows.len() > 0,
    decreases rows.len(),
{
    if rows.len() <= 1 {
        rows[0].len() as int
    } else {
        let m = min_row_len(rows.drop_last());
        let l = rows.last().len() as int;
        if l < m {
            l
        } else {
            m
        }
    }
}

/// The sum of the entries in column `c`, over all rows.
pub open spec fn col_sum(rows: Seq<Seq<WeatherData>>, c: int) -> int
    decreases rows.len(),
{
    if rows.len() == 0 {
        0
    } else {
        col_sum(rows.drop_last(), c) + rows.last()[c].temperature
    }
}

/// The elementwise average of a collection of sample rows: empty for an
/// empty collection, otherwise one entry per column of the shortest row,
/// each the columnwise sum divided by the number of rows (rounding toward
/// zero).
pub open spec fn averaged(rows: Seq<Seq<WeatherData>>) -> Seq<WeatherData> {
    if rows.len() == 0 {
        Seq::empty()
    } else {
        Seq::new(
            min_row_len(rows) as nat,
            |c: int| WeatherData {
                temperature: div_toward_zero(col_sum(rows, c), rows.len() as int) as i64,
            },
        )
    }
}

/// The shortest row is no longer than any row.
pub proof fn lemma_min_row_len_le(rows: Seq<Seq<WeatherData>>, k: int)
    requires
        0 <= k < rows.len(),
    ensures
        min_row_len(rows) <= rows[k].len(),
    decreases rows.len(),
{
    if rows.len() > 1 && k < rows.len() - 1 {
        lemma_min_row_len_le(rows.drop_last(), k);
        assert(rows.drop_last()[k] == rows[k]);
    }
}

/// When every row has the same length, that length is the shortest.
pub proof fn lemma_min_row_len_uniform(rows: Seq<Seq<WeatherData>>, len: int)
    requires
        rows.len() > 0,
        forall|k: int| 0 <= k < rows.len() ==> (#[trigger] rows[k]).len() == len,
    ensures
        min_row_len(rows) == len,
    decreases rows.len(),
{
    if rows.len() > 1 {
        assert(forall|k: int| 0 <= k < rows.len() - 1 ==> (#[trigger] rows.drop_last()[k])
            == rows[k]);
        lemma_min_row_len_uniform(rows.drop_last(), len);
    }
}

/// When no row is shorter than `lb`, neither is the shortest.
pub proof fn lemma_min_row_len_at_least(rows: Seq<Seq<WeatherData>>, lb: int)
    requires
        rows.len() > 0,
        forall|k: int| 0 <= k < rows.len() ==> (#[trigger] rows[k]).len() >= lb,
    ensures
        min_row_len(rows) >= lb,
    decreases rows.len(),
{
    if rows.len() > 1 {
        assert(forall|k: int| 0 <= k < rows.len() - 1 ==> (#[trigger] rows.drop_last()[k])
            == rows[k]);
        lemma_min_row_len_at_least(rows.drop_last(), lb);
    }
}

/// When at least one provider succeeded and none of the successful
/// forecasts is empty, the averaged data is non-empty — so the response
/// status is `Success` exactly when some provider succeeded.
pub proof fn lemma_average_nonempty(rows: Seq<Seq<WeatherData>>)
    requires
        rows.len() > 0,
        forall|k: int| 0 <= k < rows.len() ==> (#[trigger] rows[k]).len() > 0,
    ensures
        averaged(rows).len() > 0,
{
    lemma_min_row_len_at_least(rows, 1);
}

/// A columnwise sum of `n` rows lies between `n` times the smallest and
/// `n` times the largest representable temperature.
pub proof fn lemma_col_sum_bounds(rows: Seq<Seq<WeatherData>>, c: int)
    ensures
        rows.len() * (i64::MIN as int) <= col_sum(rows, c) <= rows.len() * (i64::MAX as int),
    decreases rows.len(),
{
    if rows.len() > 0 {
        lemma_col_sum_bounds(rows.drop_last(), c);
        assert((rows.len() - 1) * (i64::MIN as int) + (i64::MIN as int) == rows.len() * (
        i64::MIN as int)) by (nonlinear_arith);
        assert((rows.len() - 1) * (i64::MAX as int) + (i64::MAX as int) == rows.len() * (
        i64::MAX as int)) by (nonlinear_arith);
    }
}

/// A columnwise sum divided by the number of rows fits back into one
/// fixed-point temperature.
pub proof fn lemma_div_toward_zero_in_range(sum: int, n: int)
    requires
        n >= 1,
        n * (i64::MIN as int) <= sum <= n * (i64::MAX as int),
    ensures
        i64::MIN as int <= div_toward_zero(sum, n) <= i64::MAX as int,
{
    if sum >= 0 {
        vstd::arithmetic::div_mod::lemma_div_is_ordered(0, sum, n);
        vstd::arithmetic::div_mod::lemma_div_is_ordered(sum, n * (i64::MAX as int), n);
        vstd::arithmetic::div_mod::lemma_div_multiples_vanish(i64::MAX as int, n);
        vstd::arithmetic::div_mod::lemma_div_multiples_vanish(0, n);
    } else {
        let m = -sum;
        assert(n * (-(i64::MIN as int)) == -(n * (i64::MIN as int))) by (nonlinear_arith);
        vstd::arithmetic::div_mod::lemma_div_is_ordered(0, m, n);
        vstd::arithmetic::div_mod::lemma_div_is_ordered(m, n * (-(i64::MIN as int)), n);
        vstd::arithmetic::div_mod::lemma_div_multiples_vanish(-(i64::MIN as int), n);
        vstd::arithmetic::div_mod::lemma_div_multiples_vanish(0, n);
    }
}

/// The number of rows, as counted by a machine word, is small enough that
/// a columnwise sum of rows can never leave the 128-bit accumulator.
proof fn lemma_sum_bounds_fit(n: int)
    requires
        0 <= n <= 0xffff_ffff_ffff_ffff,
    ensures
        n * (i64::MIN as int) >= -0x7fff_ffff_ffff_ffff_8000_0000_0000_0000,
        n * (i64::MAX as int) <= 0x7fff_ffff_ffff_ffff_8000_0000_0000_0000,
{
    vstd::arithmetic::mul::lemma_mul_inequality(n, 0xffff_ffff_ffff_ffff, 0x8000_0000_0000_0000);
    vstd::arithmetic::mul::lemma_mul_inequality(n, 0xffff_ffff_ffff_ffff, i64::MAX as int);
    assert(n * (i64::MIN as int) == -(n * 0x8000_0000_0000_0000)) by (nonlinear_arith);
}

/// Divides a 128-bit columnwise sum by the number of rows that
/// contributed to it, rounding toward zero.
fn div_temp_sum(sum: i128, count: usize) -> (r: i64)
    requires
        count >= 1,
        count as int * (i64::MIN as int) <= sum as int <= count as int * (i64::MAX as int),
    ensures
        r as int == div_toward_zero(sum as int, count as int),
{
    proof {
        lemma_div_toward_zero_in_range(sum as int, count as int);
        lemma_sum_bounds_fit(count as int);
    }
    if sum >= 0 {
        let q: u128 = (sum as u128) / (count as u128);
        q as i64
    } else {
        let m: i128 = -sum;
        let q: u128 = (m as u128) / (count as u128);
        (-(q as i128)) as i64
    }
}

/// Computes the average of the data taken from multiple sources:
/// elementwise sum of all rows, truncated to the shortest row, divided
/// by the number of rows.  An empty collection averages to the empty
/// sequence.
pub fn compute_average_data(data: Vec<Vec<WeatherData>>) -> (r: Vec<WeatherData>)
    ensures
        r@ == averaged(rows_of(data@)),
        data@.len() == 0 ==> r@ == Seq::<WeatherData>::empty(),
{
    let ghost rows = rows_of(data@);
    if data.len() == 0 {
        return Vec::new();
    }
    let n = data.len();

    let mut m: usize = data[0].len();
    proof {
        assert(rows.take(1) =~= seq![rows[0]]);
        assert(rows[0] == data@[0]@);
    }
    let mut k: usize = 1;
    while k < n
        invariant
            1 <= k <= n,
            n == data.len(),
            rows == rows_of(data@),
            n == rows.len(),
            m as int == min_row_len(rows.take(k as int)),
        decreases n - k,
    {
        proof {
            assert(rows.take(k as int + 1).drop_last() =~= rows.take(k as int));
            assert(rows.take(k as int + 1).last() == rows[k as int]);
            assert(rows[k as int] == data@[k as int]@);
        }
        if data[k].len() < m {
            m = data[k].len();
        }
        k = 1 + k;
    }
    proof {
        assert(rows.take(n as int) =~= rows);
    }

    let mut out: Vec<WeatherData> = Vec::new();
    let mut c: usize = 0;
    while c < m
        invariant
            0 <= c <= m,
            out@.len() == c,
            1 <= n,
            n == data.len(),
            rows == rows_of(data@),
            n == rows.len(),
            m as int == min_row_len(rows),
            forall|j: int| 0 <= j < c ==> out@[j] == averaged(rows)[j],
        decreases m - c,
    {
        let mut sum: i128 = 0;
        let mut k: usize = 0;
        while k < n
            invariant
                0 <= k <= n,
                c < m,
                n == data.len(),
                rows == rows_of(data@),
                n == rows.len(),
                m as int == min_row_len(rows),
                sum as int == col_sum(rows.take(k as int), c as int),
                k as int * (i64::MIN as int) <= sum as int <= k as int * (i64::MAX as int),
            decreases n - k,
        {
            proof {
                lemma_min_row_len_le(rows, k as int);
                assert(rows[k as int] == data@[k as int]@);
                lemma_sum_bounds_fit(k as int + 1);
                vstd::arithmetic::mul::lemma_mul_inequality(
                    k as int,
                    k as int + 1,
                    0x8000_0000_0000_0000,
                );
                vstd::arithmetic::mul::lemma_mul_inequality(k as int, k as int + 1, i64::MAX as int);
                assert(k as int * (i64::MIN as int) == -(k as int * 0x8000_0000_0000_0000))
                    by (nonlinear_arith);
                assert((k as int + 1) * (i64::MIN as int) == -((k as int + 1)
                    * 0x8000_0000_0000_0000)) by (nonlinear_arith);
                assert(rows.take(k as int + 1).drop_last() =~= rows.take(k as int));
                assert(rows.take(k as int + 1).last() == rows[k as int]);
            }
            sum = sum + (data[k][c].temperature as i128);
            k = 1 + k;
        }
        proof {
            assert(rows.take(n as int) =~= rows);
        }
        let avg = div_temp_sum(sum, n);
        out.push(WeatherData::new(avg));
        proof {
            lemma_col_sum_bounds(rows, c as int);
            lemma_div_toward_zero_in_range(col_sum(rows, c as int), n as int);
            assert(out@[c as int] == averaged(rows)[c as int]);
        }
        c = 1 + c;
    }
    proof {
        assert(out@ =~= averaged(rows));
    }
    out
}

/// Runs the full aggregation pipeline over the per-provider outcomes:
/// partition into successes and failures, average the successes
/// elementwise, and wrap the result under a success/fail status.
pub fn response_handler(responses: Vec<Result<Vec<WeatherData>, ApiError>>) -> (r: ApiResponse)
    ensures
        r.data@ == averaged(successes_of(responses@)),
        r.errors@ == errors_of(responses@),
        r.status == (if averaged(successes_of(responses@)).len() == 0 {
            Status::Fail
        } else {
            Status::Success
        }),
{
    let (data, errors) = partition_data(responses);
    let average_data = compute_average_data(data);
    ApiResponse::new(average_data, errors)
}

/// Rewrites a columnwise sum as a right fold, so that vstd's fold
/// permutation lemma applies to it.
proof fn lemma_col_sum_as_fold(
    rows: Seq<Seq<WeatherData>>,
    c: int,
    acc: int,
    f: spec_fn(Seq<WeatherData>, int) -> int,
)
    requires
        forall|row: Seq<WeatherData>, a: int| #[trigger] f(row, a) == a + row[c].temperature,
    ensures
        rows.fold_right(f, acc) == col_sum(rows, c) + acc,
    decreases rows.len(),
{
    if rows.len() > 0 {
        lemma_col_sum_as_fold(rows.drop_last(), c, f(rows.last(), acc), f);
    }
}

/// Averaging law, first half: over a non-empty collection of rows of one
/// common length, the average has that length and each of its entries is
/// the columnwise arithmetic mean — the columnwise sum divided by the
/// number of rows (rounding toward zero).
pub proof fn lemma_average_is_elementwise_mean(rows: Seq<Seq<WeatherData>>, len: int)
    requires
        rows.len() > 0,
        forall|k: int| 0 <= k < rows.len() ==> (#[trigger] rows[k]).len() == len,
    ensures
        averaged(rows).len() == len,
        forall|c: int|
            0 <= c < len ==> (#[trigger] averaged(rows)[c]).temperature as int == div_toward_zero(
                col_sum(rows, c),
                rows.len() as int,
            ),
{
    lemma_min_row_len_uniform(rows, len);
    assert forall|c: int|
        0 <= c < len implies (#[trigger] averaged(rows)[c]).temperature as int == div_toward_zero(
        col_sum(rows, c),
        rows.len() as int,
    ) by {
        lemma_col_sum_bounds(rows, c);
        lemma_div_toward_zero_in_range(col_sum(rows, c), rows.len() as int);
    }
}

/// Averaging law, second half: the average of a non-empty collection of
/// rows of one common length is invariant under permuting the collection.
pub proof fn lemma_average_permutation_invariant(
    rows1: Seq<Seq<WeatherData>>,
    rows2: Seq<Seq<WeatherData>>,
    len: int,
)
    requires
        rows1.len() > 0,
        forall|k: int| 0 <= k < rows1.len() ==> (#[trigger] rows1[k]).len() == len,
        rows1.to_multiset() == rows2.to_multiset(),
    ensures
        averaged(rows1) == averaged(rows2),
{
    broadcast use vstd::seq_lib::group_to_multiset_ensures;

    assert(rows1.to_multiset().len() == rows1.len());
    assert(rows2.to_multiset().len() == rows2.len());
    assert(rows2.len() == rows1.len());
    assert forall|k: int| 0 <= k < rows2.len() implies (#[trigger] rows2[k]).len() == len by {
        assert(rows2.contains(rows2[k]));
        assert(rows1.to_multiset().contains(rows2[k]));
        assert(rows1.contains(rows2[k]));
        let j = choose|j: int| 0 <= j < rows1.len() && rows1[j] == rows2[k];
        assert(rows1[j].len() == len);
    }
    lemma_min_row_len_uniform(rows1, len);
    lemma_min_row_len_uniform(rows2, len);
    assert forall|c: int| 0 <= c < len implies col_sum(rows1, c) == col_sum(rows2, c) by {
        let f = |row: Seq<WeatherData>, a: int| a + row[c].temperature;
        assert(vstd::seq_lib::commutative_foldr(f));
        lemma_col_sum_as_fold(rows1, c, 0, f);
        lemma_col_sum_as_fold(rows2, c, 0, f);
        vstd::seq_lib::lemma_fold_right_permutation(rows1, rows2, f, 0);
    }
    assert(averaged(rows1) =~= averaged(rows2));
}

/// A sole successful provider's forecast is propagated unmodified and in
/// order: averaging a one-row collection gives back exactly that row.
pub proof fn lemma_average_single_source(row: Seq<WeatherData>)
    ensures
        averaged(seq![row]) == row,
{
    let rows = seq![row];
    assert(min_row_len(rows) == row.len());
    assert forall|c: int| 0 <= c < row.len() implies averaged(rows)[c] == row[c] by {
        assert(col_sum(rows.drop_last(), c) == 0);
        assert(col_sum(rows, c) == row[c].temperature);
        let t = row[c].temperature as int;
        vstd::arithmetic::div_mod::lemma_div_multiples_vanish(t, 1);
        vstd::arithmetic::div_mod::lemma_div_multiples_vanish(-t, 1);
        assert(div_toward_zero(t, 1) == t);
    }
    assert(averaged(rows) =~= row);
}

} // verus!
