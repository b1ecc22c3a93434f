use vstd::prelude::*;
use crate::graph::range::{labels_of, series_wf, values_of};
use crate::number::Rational;

verus! {

/// The number of buckets that a series is cut into for a plot `width` columns wide: one
/// for every two columns, and at least one.
pub open spec fn bucket_count(width: nat) -> nat {
    if width / 2 == 0 { 1 } else { width / 2 }
}

/// The index at which bucket `k` of `buckets` starts in a series of `len` entries.
pub open spec fn bucket_start(k: nat, len: nat, buckets: nat) -> nat {
    (k * len) / buckets
}

/// The index of the least of the values from index `from` up to, not including, index
/// `to`: of its first occurrence.
pub open spec fn first_min_index(values: Seq<real>, from: int, to: int) -> int
    decreases to - from,
{
    if to - from <= 1 {
        from
    } else {
        let rest = first_min_index(values, from, to - 1);
        if values[to - 1] < values[rest] { to - 1 } else { rest }
    }
}

/// The index of the greatest of the values from index `from` up to, not including, index
/// `to`: of its first occurrence.
pub open spec fn first_max_index(values: Seq<real>, from: int, to: int) -> int
    decreases to - from,
{
    if to - from <= 1 {
        from
    } else {
        let rest = first_max_index(values, from, to - 1);
        if values[to - 1] > values[rest] { to - 1 } else { rest }
    }
}

/// The indices of the entries kept from the first `n` of `buckets` buckets: from each
/// bucket the entry with its least and the entry with its greatest value, in the order
/// in which the two stand in the series.
pub open spec fn picked(values: Seq<real>, buckets: nat, n: nat) -> Seq<int>
    decreases n,
{
    if n == 0 {
        Seq::empty()
    } else {
        let from = bucket_start((n - 1) as nat, values.len(), buckets) as int;
        let to = bucket_start(n, values.len(), buckets) as int;
        let low = first_min_index(values, from, to);
        let high = first_max_index(values, from, to);
        picked(values, buckets, (n - 1) as nat).push(if low < high { low } else { high }).push(
            if low < high { high } else { low },
        )
    }
}

/// The indices of the entries that a plot `width` columns wide keeps of a series.
pub open spec fn sampled(values: Seq<real>, width: nat) -> Seq<int> {
    picked(values, bucket_count(width), bucket_count(width))
}

/// Buckets follow one another, stay within the series, and none is empty where there
/// are at least as many entries as buckets.
pub proof fn lemma_bucket_bounds(k: nat, len: nat, buckets: nat)
    requires
        k < buckets,
        buckets <= len,
    ensures
        bucket_start(k, len, buckets) < bucket_start(k + 1, len, buckets) <= len,
        bucket_start(buckets, len, buckets) == len,
        bucket_start(0, len, buckets) == 0,
{
    let b = buckets as int;
    let l = len as int;
    let a = k * l;
    assert((a + l) / b >= a / b + 1) by (nonlinear_arith)
        requires
            b > 0,
            l >= b,
            a >= 0,
    ;
    assert((k + 1) * l == a + l) by (nonlinear_arith)
        requires
            a == k * l,
    ;
    assert(((k + 1) * l) / b <= l) by (nonlinear_arith)
        requires
            b > 0,
            k + 1 <= b,
            l >= 0,
    ;
    assert((b * l) / b == l) by (nonlinear_arith)
        requires
            b > 0,
    ;
    assert((0 * l) / b == 0) by (nonlinear_arith)
        requires
            b > 0,
    ;
}

/// The first least value of a stretch lies in the stretch, and no value of the stretch
/// is below it.
pub proof fn lemma_first_min(values: Seq<real>, from: int, to: int, i: int)
    requires
        0 <= from <= i < to <= values.len(),
    ensures
        from <= first_min_index(values, from, to) < to,
        values[first_min_index(values, from, to)] <= values[i],
    decreases to - from,
{
    if to - from > 1 {
        if i < to - 1 {
            lemma_first_min(values, from, to - 1, i);
        } else {
            lemma_first_min(values, from, to - 1, from);
        }
    }
}

/// The first greatest value of a stretch lies in the stretch, and no value of the stretch
/// is above it.
pub proof fn lemma_first_max(values: Seq<real>, from: int, to: int, i: int)
    requires
        0 <= from <= i < to <= values.len(),
    ensures
        from <= first_max_index(values, from, to) < to,
        values[first_max_index(values, from, to)] >= values[i],
    decreases to - from,
{
    if to - from > 1 {
        if i < to - 1 {
            lemma_first_max(values, from, to - 1, i);
        } else {
            lemma_first_max(values, from, to - 1, from);
        }
    }
}

/// The index of the first least (`want_max` false) or first greatest (`want_max` true)
/// value of the series from index `from` up to, not including, index `to`.
fn extreme_entry(data: &Vec<(String, Rational)>, from: usize, to: usize, want_max: bool) -> (r: usize)
    requires
        series_wf(data@),
        from < to <= data.len(),
    ensures
        from <= r < to,
        r == if want_max {
            first_max_index(values_of(data@), from as int, to as int)
        } else {
            first_min_index(values_of(data@), from as int, to as int)
        },
{
    let ghost values = values_of(data@);
    let mut best: usize = from;
    let mut i: usize = from + 1;
    while i < to
        invariant
            from < i <= to <= data.len(),
            from <= best < i,
            values == values_of(data@),
            series_wf(data@),
            best == if want_max {
                first_max_index(values, from as int, i as int)
            } else {
                first_min_index(values, from as int, i as int)
            },
        decreases to - i,
    {
        let better = if want_max {
            data[best].1.lt(&data[i].1)
        } else {
            data[i].1.lt(&data[best].1)
        };
        if better {
            best = i;
        }
        i += 1;
    }
    best
}

/// Thins a series out for a plot `width` columns wide: the series is cut into one bucket
/// for every two columns, and of each bucket the entry with the least and the entry with
/// the greatest value are kept, in the order in which they stand in the series. So the
/// peaks and valleys stay however much is left out.
pub fn pick_meaningful_values(data: &Vec<(String, Rational)>, width: usize) -> (r: Vec<(String, Rational)>)
    requires
        series_wf(data@),
        data.len() >= bucket_count(width as nat),
    ensures
        series_wf(r@),
        r.len() == 2 * bucket_count(width as nat),
        values_of(r@) == sampled(values_of(data@), width as nat).map_values(|i: int| values_of(data@)[i]),
        labels_of(r@) == sampled(values_of(data@), width as nat).map_values(|i: int| labels_of(data@)[i]),
{
    let buckets: usize = if width / 2 == 0 { 1 } else { width / 2 };
    let ghost values = values_of(data@);
    let ghost labels = labels_of(data@);
    let mut result: Vec<(String, Rational)> = Vec::new();
    let mut last_ind: usize = 0;
    let mut k: usize = 0;
    proof {
        lemma_bucket_bounds(0, data.len() as nat, buckets as nat);
    }
    while k < buckets
        invariant
            k <= buckets,
            buckets == bucket_count(width as nat),
            buckets <= data.len(),
            values == values_of(data@),
            labels == labels_of(data@),
            series_wf(data@),
            series_wf(result@),
            last_ind == bucket_start(k as nat, data.len() as nat, buckets as nat),
            result.len() == 2 * k,
            picked(values, buckets as nat, k as nat).len() == 2 * k,
            forall|j: int| 0 <= j < 2 * k ==> 0 <= #[trigger] picked(values, buckets as nat, k as nat)[j] < data.len(),
            forall|j: int| 0 <= j < 2 * k ==> (#[trigger] result[j]).1@ == values[picked(
                values,
                buckets as nat,
                k as nat,
            )[j]],
            forall|j: int| 0 <= j < 2 * k ==> (#[trigger] result[j]).0@ == labels[picked(
                values,
                buckets as nat,
                k as nat,
            )[j]],
        decreases buckets - k,
    {
        proof {
            lemma_bucket_bounds(k as nat, data.len() as nat, buckets as nat);
            assert((k + 1) * data.len() <= 0xFFFF_FFFF_FFFF_FFFF * 0xFFFF_FFFF_FFFF_FFFF) by (nonlinear_arith)
                requires
                    0 <= k + 1 <= 0xFFFF_FFFF_FFFF_FFFF,
                    0 <= data.len() <= 0xFFFF_FFFF_FFFF_FFFF,
            ;
        }
        let curr_ind: usize = ((k as u128 + 1) * (data.len() as u128) / (buckets as u128)) as usize;
        let low = extreme_entry(data, last_ind, curr_ind, false);
        let high = extreme_entry(data, last_ind, curr_ind, true);
        let (first, second) = if low < high { (low, high) } else { (high, low) };
        result.push((data[first].0.clone(), data[first].1.clone()));
        result.push((data[second].0.clone(), data[second].1.clone()));
        proof {
            let before = picked(values, buckets as nat, k as nat);
            let after = picked(values, buckets as nat, (k + 1) as nat);
            assert(after == before.push(first as int).push(second as int));
            assert forall|j: int| 0 <= j < 2 * k implies after[j] == before[j] by {}
            assert(after[2 * k] == first);
            assert(after[2 * k + 1] == second);
        }
        last_ind = curr_ind;
        k += 1;
    }
    proof {
        let want = sampled(values, width as nat);
        assert(want.len() == 2 * buckets) by {
            lemma_picked_len(values, buckets as nat, buckets as nat);
        }
        assert(values_of(result@) =~= want.map_values(|i: int| values[i]));
        assert(labels_of(result@) =~= want.map_values(|i: int| labels[i]));
    }
    result
}

/// Two entries are kept of every bucket.
pub proof fn lemma_picked_len(values: Seq<real>, buckets: nat, n: nat)
    ensures
        picked(values, buckets, n).len() == 2 * n,
    decreases n,
{
    if n > 0 {
        lemma_picked_len(values, buckets, (n - 1) as nat);
    }
}

/// The two entries kept of bucket `k` are its first least and its first greatest.
pub proof fn lemma_picked_of_bucket(values: Seq<real>, buckets: nat, n: nat, k: nat)
    requires
        k < n,
    ensures
        picked(values, buckets, n).len() == 2 * n,
        ({
            let from = bucket_start(k, values.len(), buckets) as int;
            let to = bucket_start(k + 1, values.len(), buckets) as int;
            let low = first_min_index(values, from, to);
            let high = first_max_index(values, from, to);
            &&& picked(values, buckets, n)[2 * (k as int)] == if low < high { low } else { high }
            &&& picked(values, buckets, n)[2 * (k as int) + 1] == if low < high { high } else { low }
        }),
    decreases n,
{
    lemma_picked_len(values, buckets, n);
    lemma_picked_len(values, buckets, (n - 1) as nat);
    if k < n - 1 {
        lemma_picked_of_bucket(values, buckets, (n - 1) as nat, k);
    }
}

/// Thinning a series out keeps the extremes of every bucket: of the two values kept of
/// bucket `k`, one is not above and one is not below any value `values[i]` of that
/// bucket, and both stand in the bucket.
pub proof fn lemma_sample_keeps_extremes(values: Seq<real>, width: nat, k: nat, i: int)
    requires
        bucket_count(width) <= values.len(),
        k < bucket_count(width),
        bucket_start(k, values.len(), bucket_count(width)) <= i < bucket_start(
            k + 1,
            values.len(),
            bucket_count(width),
        ),
    ensures
        ({
            let kept = sampled(values, width);
            let from = bucket_start(k, values.len(), bucket_count(width));
            let to = bucket_start(k + 1, values.len(), bucket_count(width));
            let a = values[kept[2 * (k as int)]];
            let b = values[kept[2 * (k as int) + 1]];
            &&& kept.len() == 2 * bucket_count(width)
            &&& from <= kept[2 * (k as int)] < to
            &&& from <= kept[2 * (k as int) + 1] < to
            &&& (if a <= b { a } else { b }) <= values[i] <= (if a <= b { b } else { a })
        }),
{
    let buckets = bucket_count(width);
    let from = bucket_start(k, values.len(), buckets) as int;
    let to = bucket_start(k + 1, values.len(), buckets) as int;
    lemma_bucket_bounds(k, values.len(), buckets);
    lemma_picked_of_bucket(values, buckets, buckets, k);
    lemma_first_min(values, from, to, i);
    lemma_first_max(values, from, to, i);
}

} // verus!
