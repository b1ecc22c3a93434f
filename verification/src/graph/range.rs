use vstd::prelude::*;
use crate::number::{rounding, Rational};

verus! {

/// The values of a series.
pub open spec fn values_of(data: Seq<(String, Rational)>) -> Seq<real> {
    data.map_values(|entry: (String, Rational)| entry.1@)
}

/// The labels of a series.
pub open spec fn labels_of(data: Seq<(String, Rational)>) -> Seq<Seq<char>> {
    data.map_values(|entry: (String, Rational)| entry.0@)
}

/// Every value of the series is a well-formed number.
pub open spec fn series_wf(data: Seq<(String, Rational)>) -> bool {
    forall|i: int| 0 <= i < data.len() ==> (#[trigger] data[i]).1.wf()
}

/// The least of the values; zero where there is none.
pub open spec fn least(values: Seq<real>) -> real
    decreases values.len(),
{
    if values.len() == 0 {
        0real
    } else if values.len() == 1 {
        values[0]
    } else {
        let rest = least(values.drop_last());
        if values.last() < rest { values.last() } else { rest }
    }
}

/// The greatest of the values; zero where there is none.
pub open spec fn greatest(values: Seq<real>) -> real
    decreases values.len(),
{
    if values.len() == 0 {
        0real
    } else if values.len() == 1 {
        values[0]
    } else {
        let rest = greatest(values.drop_last());
        if values.last() > rest { values.last() } else { rest }
    }
}

/// The least of the values that is above `v`, if one is.
pub open spec fn next_above(values: Seq<real>, v: real) -> Option<real>
    decreases values.len(),
{
    if values.len() == 0 {
        None
    } else {
        let rest = next_above(values.drop_last(), v);
        let x = values.last();
        if x > v && (rest is None || x < rest->0) {
            Some(x)
        } else {
            rest
        }
    }
}

/// The distance from `v` to the next value above it; zero where `v` is the greatest.
pub open spec fn gap_above(values: Seq<real>, v: real) -> real {
    match next_above(values, v) {
        Some(x) => x - v,
        None => 0real,
    }
}

/// The widest gap above one of the first `n` values: the largest distance between two
/// values that are neighbours once the values are put in order.
pub open spec fn widest_gap(values: Seq<real>, n: nat) -> real
    decreases n,
{
    if n == 0 {
        0real
    } else {
        let rest = widest_gap(values, (n - 1) as nat);
        let gap = gap_above(values, values[n - 1]);
        if gap > rest { gap } else { rest }
    }
}

/// The bounds of the data as a plot `height` rows tall takes them: the least and the
/// greatest value as they are. Only where the two are the same, so that there is no span
/// to draw on, are they moved apart, by a quarter of the height each.
pub open spec fn spread_flat(data_min: real, data_max: real, height: nat) -> (real, real) {
    if data_min == data_max {
        (data_min - height as real / 4real, data_max + height as real / 4real)
    } else {
        (data_min, data_max)
    }
}

/// The index of the least value of the series, the first such.
fn least_entry(data: &Vec<(String, Rational)>) -> (r: usize)
    requires
        data.len() > 0,
        series_wf(data@),
    ensures
        r < data.len(),
        data[r as int].1@ == least(values_of(data@)),
{
    let ghost values = values_of(data@);
    let mut best: usize = 0;
    let mut i: usize = 1;
    assert(values.take(1) =~= seq![values[0]]);
    while i < data.len()
        invariant
            1 <= i <= data.len(),
            best < i,
            values == values_of(data@),
            series_wf(data@),
            values[best as int] == least(values.take(i as int)),
        decreases data.len() - i,
    {
        assert(values.take(i + 1).drop_last() =~= values.take(i as int));
        if data[i].1.lt(&data[best].1) {
            best = i;
        }
        i += 1;
    }
    assert(values.take(data.len() as int) =~= values);
    best
}

/// The index of the greatest value of the series, the first such.
fn greatest_entry(data: &Vec<(String, Rational)>) -> (r: usize)
    requires
        data.len() > 0,
        series_wf(data@),
    ensures
        r < data.len(),
        data[r as int].1@ == greatest(values_of(data@)),
{
    let ghost values = values_of(data@);
    let mut best: usize = 0;
    let mut i: usize = 1;
    assert(values.take(1) =~= seq![values[0]]);
    while i < data.len()
        invariant
            1 <= i <= data.len(),
            best < i,
            values == values_of(data@),
            series_wf(data@),
            values[best as int] == greatest(values.take(i as int)),
        decreases data.len() - i,
    {
        assert(values.take(i + 1).drop_last() =~= values.take(i as int));
        if data[best].1.lt(&data[i].1) {
            best = i;
        }
        i += 1;
    }
    assert(values.take(data.len() as int) =~= values);
    best
}

/// The index of the least value of the series above `v`, if one is.
fn next_above_entry(data: &Vec<(String, Rational)>, v: &Rational) -> (r: Option<usize>)
    requires
        series_wf(data@),
        v.wf(),
    ensures
        match r {
            Some(at) => at < data.len() && next_above(values_of(data@), v@) == Some(data[at as int].1@),
            None => next_above(values_of(data@), v@) is None,
        },
{
    let ghost values = values_of(data@);
    let mut best: Option<usize> = None;
    let mut i: usize = 0;
    while i < data.len()
        invariant
            i <= data.len(),
            values == values_of(data@),
            series_wf(data@),
            v.wf(),
            match best {
                Some(at) => at < i && next_above(values.take(i as int), v@) == Some(values[at as int]),
                None => next_above(values.take(i as int), v@) is None,
            },
        decreases data.len() - i,
    {
        assert(values.take(i + 1).drop_last() =~= values.take(i as int));
        if v.lt(&data[i].1) {
            match best {
                Some(at) => {
                    if data[i].1.lt(&data[at].1) {
                        best = Some(i);
                    }
                },
                None => {
                    best = Some(i);
                },
            }
        }
        i += 1;
    }
    assert(values.take(data.len() as int) =~= values);
    best
}

/// The distance from `v` to the next value of the series above it.
fn gap_above_of(data: &Vec<(String, Rational)>, v: &Rational) -> (r: Rational)
    requires
        series_wf(data@),
        v.wf(),
    ensures
        r.wf(),
        r@ == gap_above(values_of(data@), v@),
{
    match next_above_entry(data, v) {
        Some(at) => data[at].1.sub(v),
        None => Rational::from_i32(0),
    }
}

/// The least value of a series, its greatest value, and the widest gap between two
/// values that are neighbours once the values are put in order. Of an empty series: zero,
/// one and zero. The height of the plot plays no part in the three.
pub fn get_min_max_diff(data: &Vec<(String, Rational)>, height: usize) -> (r: (Rational, Rational, Rational))
    requires
        series_wf(data@),
    ensures
        r.0.wf() && r.1.wf() && r.2.wf(),
        data.len() == 0 ==> r.0@ == 0real && r.1@ == 1real && r.2@ == 0real,
        data.len() > 0 ==> {
            let values = values_of(data@);
            &&& r.0@ == least(values)
            &&& r.1@ == greatest(values)
            &&& r.2@ == widest_gap(values, values.len())
        },
{
    if data.len() == 0 {
        return (Rational::from_i32(0), Rational::from_i32(1), Rational::from_i32(0));
    }
    let ghost values = values_of(data@);
    let low = &data[least_entry(data)].1;
    let high = &data[greatest_entry(data)].1;
    let mut max_diff = Rational::from_i32(0);
    let mut i: usize = 0;
    while i < data.len()
        invariant
            i <= data.len(),
            values == values_of(data@),
            series_wf(data@),
            max_diff.wf(),
            max_diff@ == widest_gap(values, i as nat),
        decreases data.len() - i,
    {
        let gap = gap_above_of(data, &data[i].1);
        if max_diff.lt(&gap) {
            max_diff = gap;
        }
        i += 1;
    }
    (low.clone(), high.clone(), max_diff)
}

/// The bounds of the data as a plot `height` rows tall takes them: see `spread_flat`.
pub fn spread_flat_range(data_min: &Rational, data_max: &Rational, height: usize) -> (r: (Rational, Rational))
    requires
        data_min.wf(),
        data_max.wf(),
    ensures
        r.0.wf() && r.1.wf(),
        (r.0@, r.1@) == spread_flat(data_min@, data_max@, height as nat),
{
    if same(data_min, data_max) {
        let margin = Rational::from_usize(height).div(&Rational::from_i32(4));
        (data_min.sub(&margin), data_max.add(&margin))
    } else {
        (data_min.clone(), data_max.clone())
    }
}

/// The range of the y axis: the bounds that were given, and for one that was not, the
/// bound of the data on that side, or, where the given bound leaves no data in the range,
/// the given bound moved by one.
pub open spec fn y_range(
    given_min: Option<real>,
    given_max: Option<real>,
    data_min: real,
    data_max: real,
) -> (real, real) {
    match (given_min, given_max) {
        (Some(low), Some(high)) => (low, high),
        (Some(low), None) => if low < data_max { (low, data_max) } else { (low, low + 1real) },
        (None, Some(high)) => if high > data_min { (data_min, high) } else { (high - 1real, high) },
        (None, None) => (data_min, data_max),
    }
}

/// The view of a number that may be absent.
pub open spec fn opt_view(number: Option<Rational>) -> Option<real> {
    match number {
        Some(n) => Some(n@),
        None => None,
    }
}

/// A number that may be absent is well formed where it is there.
pub open spec fn opt_wf(number: Option<Rational>) -> bool {
    number matches Some(n) ==> n.wf()
}

/// The range of the y axis from the bounds that were given and those of the data.
pub fn unwrap_y_min_max(
    self_y_min: &Option<Rational>,
    self_y_max: &Option<Rational>,
    data_min: &Rational,
    data_max: &Rational,
) -> (r: (Rational, Rational))
    requires
        opt_wf(*self_y_min),
        opt_wf(*self_y_max),
        data_min.wf(),
        data_max.wf(),
    ensures
        r.0.wf() && r.1.wf(),
        (r.0@, r.1@) == y_range(opt_view(*self_y_min), opt_view(*self_y_max), data_min@, data_max@),
{
    match (self_y_min, self_y_max) {
        (Some(low), Some(high)) => (low.clone(), high.clone()),
        (Some(low), None) => if low.lt(data_max) {
            (low.clone(), data_max.clone())
        } else {
            (low.clone(), low.add(&Rational::from_i32(1)))
        },
        (None, Some(high)) => if data_min.lt(high) {
            (data_min.clone(), high.clone())
        } else {
            (high.sub(&Rational::from_i32(1)), high.clone())
        },
        (None, None) => (data_min.clone(), data_max.clone()),
    }
}

/// Whether a step of `sixteenths` sixteenths of the granularity is far from every whole
/// multiple of it up to the seventh: then the labels are left as they are.
pub open spec fn off_grid(sixteenths: int) -> bool {
    ||| sixteenths < 15
    ||| 17 < sixteenths < 30
    ||| 34 < sixteenths < 45
    ||| 51 < sixteenths < 60
    ||| 68 < sixteenths < 75
    ||| 85 < sixteenths < 90
    ||| 102 < sixteenths < 105
}

/// The range `(low, high)` of a plot `height` rows tall, moved so that the labels of its
/// rows fall on multiples of `step`: the lower bound goes to the nearest multiple, and
/// the span to the nearest multiple of `step` times `height`.
pub open spec fn snapped(low: real, high: real, height: nat, step: real) -> (real, real) {
    let new_low = rounding(low / step) as real * step;
    let span = rounding((high - new_low) / step / (height as real)) as real * step * (height as real);
    (new_low, new_low + span)
}

/// The range of the y axis with pretty labels. `snap` holds whether the lower bound may
/// move, whether the upper bound may move, and the granularity. The range stays as it is
/// where no granularity is given or it is zero, where the plot has no rows, where one of
/// the bounds may not move, where the step from row to row is off the grid (see
/// `off_grid`), and where snapping would leave no span.
pub open spec fn pretty_range(low: real, high: real, height: nat, snap: Option<(bool, bool, real)>) -> (real, real) {
    match snap {
        None => (low, high),
        Some((low_movable, high_movable, step)) => {
            let sixteenths = rounding((high - low) / (height as real) / step * 16real);
            let moved = snapped(low, high, height, step);
            if step == 0real || height == 0 || !high_movable || !low_movable {
                (low, high)
            } else if i32::MIN <= sixteenths <= i32::MAX && off_grid(sixteenths) {
                (low, high)
            } else if moved.1 <= moved.0 {
                (low, high)
            } else {
                moved
            }
        },
    }
}

/// The view of the setting for pretty labels.
pub open spec fn snap_view(snap: Option<(bool, bool, Rational)>) -> Option<(bool, bool, real)> {
    match snap {
        Some((low_movable, high_movable, step)) => Some((low_movable, high_movable, step@)),
        None => None,
    }
}

/// The range of the y axis with pretty labels: see `pretty_range`.
pub fn prettify_y_labels(
    old_y_min: &Rational,
    old_y_max: &Rational,
    height: usize,
    pretty_y_label_info: Option<(bool, bool, Rational)>,
) -> (r: (Rational, Rational))
    requires
        old_y_min.wf(),
        old_y_max.wf(),
        pretty_y_label_info matches Some(info) ==> info.2.wf(),
    ensures
        r.0.wf() && r.1.wf(),
        (r.0@, r.1@) == pretty_range(old_y_min@, old_y_max@, height as nat, snap_view(pretty_y_label_info)),
{
    match pretty_y_label_info {
        None => (old_y_min.clone(), old_y_max.clone()),
        Some((y_min_movable, y_max_movable, interval)) => {
            if interval.is_zero() || height == 0 || !y_max_movable || !y_min_movable {
                return (old_y_min.clone(), old_y_max.clone());
            }
            let rows = Rational::from_usize(height);
            let curr_interval = old_y_max.sub(old_y_min).div(&rows);
            let sixteenths = curr_interval.div(&interval).mul(&Rational::from_i32(16)).round();
            proof {
                crate::number::lemma_whole(rounding((old_y_max@ - old_y_min@) / (height as real) / interval@ * 16real));
            }
            if let Some(n) = sixteenths.to_i32() {
                if n < 15 || (17 < n && n < 30) || (34 < n && n < 45) || (51 < n && n < 60) || (68 < n && n < 75)
                    || (85 < n && n < 90) || (102 < n && n < 105) {
                    return (old_y_min.clone(), old_y_max.clone());
                }
            }
            let new_y_min = old_y_min.div(&interval).round().mul(&interval);
            let y_diff = old_y_max.sub(&new_y_min);
            let new_y_diff = y_diff.div(&interval).div(&rows).round().mul(&interval).mul(&rows);
            let new_y_max = new_y_min.add(&new_y_diff);
            if new_y_min.lt(&new_y_max) {
                (new_y_min, new_y_max)
            } else {
                (old_y_min.clone(), old_y_max.clone())
            }
        },
    }
}

/// The values that a count takes, by where they lie to a bound.
#[derive(Clone, Copy, Debug, PartialEq, Eq, Structural)]
pub enum Side {
    /// Below the bound.
    Below,
    /// Below the bound, or equal to it.
    UpTo,
    /// Above the bound.
    Above,
}

/// Whether `v` lies on the given side of `bound`.
pub open spec fn on_side(v: real, side: Side, bound: real) -> bool {
    match side {
        Side::Below => v < bound,
        Side::UpTo => v <= bound,
        Side::Above => v > bound,
    }
}

/// How many different values on the given side of `bound` there are among the first `n`
/// values.
pub open spec fn distinct_count(values: Seq<real>, n: nat, side: Side, bound: real) -> nat
    decreases n,
{
    if n == 0 {
        0
    } else {
        let rest = distinct_count(values, (n - 1) as nat, side, bound);
        if on_side(values[n - 1], side, bound) && !values.take(n - 1).contains(values[n - 1]) {
            rest + 1
        } else {
            rest
        }
    }
}

/// The shares, in sixths of the height, of the plot below a skipped range and of the
/// plot above it, by the numbers of different values below and above: four to two or two
/// to four where one side has values, and at least one and a half times as many as the
/// other; else three to three.
pub open spec fn subplot_parts(below: nat, above: nat) -> (nat, nat) {
    if below > 0 && below * 2 >= above * 3 {
        (4, 2)
    } else if above > 0 && above * 2 >= below * 3 {
        (2, 4)
    } else {
        (3, 3)
    }
}

/// The least among the first `n` values of those above which the widest gap lies.
pub open spec fn gap_floor(values: Seq<real>, n: nat) -> Option<real>
    decreases n,
{
    if n == 0 {
        None
    } else {
        let rest = gap_floor(values, (n - 1) as nat);
        let v = values[n - 1];
        if gap_above(values, v) == widest_gap(values, values.len()) && (rest is None || v < rest->0) {
            Some(v)
        } else {
            rest
        }
    }
}

/// A range of values to leave out of a plot, with the bounds of the plot around it.
pub struct SkipPlan {
    /// The lower bound of the plot.
    pub low: real,
    /// Where the skipped range starts.
    pub from: real,
    /// Where the skipped range ends.
    pub to: real,
    /// The upper bound of the plot.
    pub high: real,
    /// The shares of the two plots: see `subplot_parts`.
    pub parts: (nat, nat),
}

/// The range to skip for a series: the widest gap between two neighbouring values, the
/// lowest such gap where there are several, less a margin on either side. Each margin is
/// a sixteenth of the span of the values on its side of the gap, or of the gap where
/// they span nothing; the plot's bounds are the least and the greatest value, moved
/// outward by the same margins. Where all values are the same, the range is that one
/// value.
pub open spec fn skip_plan(values: Seq<real>) -> SkipPlan {
    let floor = gap_floor(values, values.len())->0;
    let ceiling = match next_above(values, floor) {
        Some(value) => value,
        None => floor,
    };
    let gap = ceiling - floor;
    let low_span = floor - least(values);
    let high_span = greatest(values) - ceiling;
    let low_margin = if low_span == 0real { gap / 16real } else { low_span / 16real };
    let high_margin = if high_span == 0real { gap / 16real } else { high_span / 16real };
    SkipPlan {
        low: least(values) - low_margin,
        from: floor + low_margin,
        to: ceiling - high_margin,
        high: greatest(values) + high_margin,
        parts: subplot_parts(
            distinct_count(values, values.len(), Side::UpTo, floor),
            distinct_count(values, values.len(), Side::Above, floor),
        ),
    }
}

/// The distance from a value to the next above it is not negative.
pub proof fn lemma_gap_nonnegative(values: Seq<real>, v: real)
    ensures
        gap_above(values, v) >= 0real,
    decreases values.len(),
{
    if values.len() > 0 {
        lemma_gap_nonnegative(values.drop_last(), v);
    }
}

/// The widest gap above one of the first `n` values lies above one of them.
pub proof fn lemma_widest_gap_attained(values: Seq<real>, n: nat)
    requires
        0 < n <= values.len(),
    ensures
        exists|i: int| 0 <= i < n && gap_above(values, #[trigger] values[i]) == widest_gap(values, n),
    decreases n,
{
    let rest = widest_gap(values, (n - 1) as nat);
    if gap_above(values, values[n - 1]) > rest {
        assert(gap_above(values, values[n - 1]) == widest_gap(values, n));
    } else if n > 1 {
        lemma_widest_gap_attained(values, (n - 1) as nat);
        let i = choose|i: int| 0 <= i < n - 1 && gap_above(values, #[trigger] values[i]) == rest;
        assert(gap_above(values, values[i]) == widest_gap(values, n));
    } else {
        lemma_gap_nonnegative(values, values[0]);
        assert(gap_above(values, values[0]) == widest_gap(values, n));
    }
}

/// Whether two numbers are equal.
fn same(a: &Rational, b: &Rational) -> (r: bool)
    requires
        a.wf(),
        b.wf(),
    ensures
        r == (a@ == b@),
{
    !a.lt(b) && !b.lt(a)
}

/// Whether `v` lies on the given side of `bound`.
fn is_on_side(v: &Rational, side: Side, bound: &Rational) -> (r: bool)
    requires
        v.wf(),
        bound.wf(),
    ensures
        r == on_side(v@, side, bound@),
{
    match side {
        Side::Below => v.lt(bound),
        Side::UpTo => !bound.lt(v),
        Side::Above => bound.lt(v),
    }
}

/// How many different values of the series lie on the given side of `bound`.
pub fn count_distinct(data: &Vec<(String, Rational)>, side: Side, bound: &Rational) -> (r: usize)
    requires
        series_wf(data@),
        bound.wf(),
    ensures
        r == distinct_count(values_of(data@), data.len() as nat, side, bound@),
        r <= data.len(),
{
    let ghost values = values_of(data@);
    let mut count: usize = 0;
    let mut i: usize = 0;
    while i < data.len()
        invariant
            i <= data.len(),
            values == values_of(data@),
            series_wf(data@),
            bound.wf(),
            count == distinct_count(values, i as nat, side, bound@),
            count <= i,
        decreases data.len() - i,
    {
        if is_on_side(&data[i].1, side, bound) {
            let mut seen = false;
            let mut j: usize = 0;
            while j < i && !seen
                invariant
                    j <= i < data.len(),
                    values == values_of(data@),
                    series_wf(data@),
                    seen ==> values.take(i as int).contains(values[i as int]),
                    !seen ==> forall|k: int| 0 <= k < j ==> values[k] != values[i as int],
                decreases i - j + if seen { 0int } else { 1int },
            {
                if same(&data[j].1, &data[i].1) {
                    seen = true;
                    assert(values.take(i as int)[j as int] == values[i as int]);
                }
                j += 1;
            }
            if !seen {
                assert(!values.take(i as int).contains(values[i as int]));
                count += 1;
            }
        }
        i += 1;
    }
    count
}

/// The shares of the two plots around a skipped range: see `subplot_parts`.
pub fn ratio_of_subplots(below: usize, above: usize) -> (r: (usize, usize))
    ensures
        (r.0 as nat, r.1 as nat) == subplot_parts(below as nat, above as nat),
{
    if below > 0 && below as u128 * 2 >= above as u128 * 3 {
        (4, 2)
    } else if above > 0 && above as u128 * 2 >= below as u128 * 3 {
        (2, 4)
    } else {
        (3, 3)
    }
}

/// The widest gap between two neighbouring values of the series.
fn widest_gap_of(data: &Vec<(String, Rational)>) -> (r: Rational)
    requires
        series_wf(data@),
    ensures
        r.wf(),
        r@ == widest_gap(values_of(data@), data.len() as nat),
{
    let ghost values = values_of(data@);
    let mut max_diff = Rational::from_i32(0);
    let mut i: usize = 0;
    while i < data.len()
        invariant
            i <= data.len(),
            values == values_of(data@),
            series_wf(data@),
            max_diff.wf(),
            max_diff@ == widest_gap(values, i as nat),
        decreases data.len() - i,
    {
        let gap = gap_above_of(data, &data[i].1);
        if max_diff.lt(&gap) {
            max_diff = gap;
        }
        i += 1;
    }
    max_diff
}

/// The range to skip for a series: the lower bound of the plot below, the range, the
/// upper bound of the plot above, and the shares of the two plots. See `skip_plan`.
pub fn get_where_to_skip(data: &Vec<(String, Rational)>) -> (r: (Rational, Rational, Rational, Rational, (usize, usize)))
    requires
        series_wf(data@),
        data.len() > 0,
    ensures
        r.0.wf() && r.1.wf() && r.2.wf() && r.3.wf(),
        ({
            let plan = skip_plan(values_of(data@));
            &&& r.0@ == plan.low
            &&& r.1@ == plan.from
            &&& r.2@ == plan.to
            &&& r.3@ == plan.high
            &&& (r.4.0 as nat, r.4.1 as nat) == plan.parts
        }),
{
    let ghost values = values_of(data@);
    let widest = widest_gap_of(data);
    let mut best: usize = 0;
    let mut found = false;
    let mut i: usize = 0;
    while i < data.len()
        invariant
            i <= data.len(),
            values == values_of(data@),
            series_wf(data@),
            widest.wf(),
            widest@ == widest_gap(values, values.len()),
            found ==> best < i && gap_floor(values, i as nat) == Some(values[best as int]) && gap_above(
                values,
                values[best as int],
            ) == widest@,
            !found ==> gap_floor(values, i as nat) is None && forall|k: int| 0 <= k < i ==> gap_above(
                values,
                #[trigger] values[k],
            ) != widest@,
        decreases data.len() - i,
    {
        let gap = gap_above_of(data, &data[i].1);
        if same(&gap, &widest) && (!found || data[i].1.lt(&data[best].1)) {
            best = i;
            found = true;
        }
        i += 1;
    }
    proof {
        lemma_widest_gap_attained(values, values.len());
        assert(found);
    }
    let floor = &data[best].1;
    let next = next_above_entry(data, floor);
    let ceiling = match next {
        Some(at) => &data[at].1,
        None => floor,
    };
    let low = &data[least_entry(data)].1;
    let high = &data[greatest_entry(data)].1;
    let sixteen = Rational::from_i32(16);
    let gap_margin = ceiling.sub(floor).div(&sixteen);
    let mut low_margin = floor.sub(low).div(&sixteen);
    if low_margin.is_zero() {
        low_margin = gap_margin.clone();
    }
    let mut high_margin = high.sub(ceiling).div(&sixteen);
    if high_margin.is_zero() {
        high_margin = gap_margin.clone();
    }
    let below = count_distinct(data, Side::UpTo, floor);
    let above = count_distinct(data, Side::Above, floor);
    (
        low.sub(&low_margin),
        floor.add(&low_margin),
        ceiling.sub(&high_margin),
        high.add(&high_margin),
        ratio_of_subplots(below, above),
    )
}

/// No gap is negative.
pub proof fn lemma_widest_gap_nonnegative(values: Seq<real>, n: nat)
    ensures
        widest_gap(values, n) >= 0real,
    decreases n,
{
    if n > 0 {
        lemma_widest_gap_nonnegative(values, (n - 1) as nat);
    }
}

/// The least value is not above any value, and the greatest not below any.
pub proof fn lemma_least_greatest(values: Seq<real>, i: int)
    requires
        0 <= i < values.len(),
    ensures
        least(values) <= values[i] <= greatest(values),
    decreases values.len(),
{
    if values.len() > 1 {
        if i < values.len() - 1 {
            lemma_least_greatest(values.drop_last(), i);
        } else {
            lemma_least_greatest(values.drop_last(), 0);
        }
    }
}

/// The next value above `v` is one of the values and lies above `v`, and no value lies
/// between the two.
pub proof fn lemma_next_above(values: Seq<real>, v: real, i: int)
    requires
        0 <= i < values.len(),
    ensures
        next_above(values, v) matches Some(x) ==> x > v && values.contains(x) && (values[i] <= v || values[i] >= x),
        next_above(values, v) is None ==> values[i] <= v,
    decreases values.len(),
{
    let rest = values.drop_last();
    if values.len() > 1 {
        if i < values.len() - 1 {
            lemma_next_above(rest, v, i);
        } else {
            lemma_next_above(rest, v, 0);
        }
        if next_above(rest, v) is Some {
            let x = next_above(rest, v)->0;
            let k = choose|k: int| 0 <= k < rest.len() && rest[k] == x;
            assert(values[k] == x);
        }
    }
    if next_above(values, v) == Some(values.last()) {
        assert(values[values.len() - 1] == values.last());
    }
}

/// Where a gap as wide as the widest lies above one of the first `n` values, the floor
/// of the gap is one of the values, and the widest gap lies above it.
pub proof fn lemma_gap_floor(values: Seq<real>, n: nat)
    requires
        n <= values.len(),
        exists|i: int| 0 <= i < n && gap_above(values, #[trigger] values[i]) == widest_gap(values, values.len()),
    ensures
        gap_floor(values, n) matches Some(v) && values.contains(v) && gap_above(values, v) == widest_gap(
            values,
            values.len(),
        ),
    decreases n,
{
    let i = choose|i: int| 0 <= i < n && gap_above(values, #[trigger] values[i]) == widest_gap(values, values.len());
    if i < n - 1 {
        lemma_gap_floor(values, (n - 1) as nat);
    } else if gap_floor(values, (n - 1) as nat) is Some {
        lemma_gap_floor_sound(values, (n - 1) as nat);
    }
    assert(values.contains(values[n - 1]));
}

/// The floor of the widest gap, where there is one, is one of the values, and the widest
/// gap lies above it.
pub proof fn lemma_gap_floor_sound(values: Seq<real>, n: nat)
    requires
        n <= values.len(),
        gap_floor(values, n) is Some,
    ensures
        values.contains(gap_floor(values, n)->0),
        gap_above(values, gap_floor(values, n)->0) == widest_gap(values, values.len()),
    decreases n,
{
    if n > 0 {
        if gap_floor(values, n) == gap_floor(values, (n - 1) as nat) {
            lemma_gap_floor_sound(values, (n - 1) as nat);
        } else {
            assert(values.contains(values[n - 1]));
        }
    }
}

/// The range that a plan leaves out lies strictly within the widest gap: it starts above
/// the value below the gap and ends below the value above it, so no value lies in it.
pub proof fn lemma_plan_skips_no_value(values: Seq<real>, i: int)
    requires
        0 <= i < values.len(),
        widest_gap(values, values.len()) != 0real,
    ensures
        !(skip_plan(values).from <= values[i] <= skip_plan(values).to),
{
    lemma_widest_gap_nonnegative(values, values.len());
    lemma_widest_gap_attained(values, values.len());
    lemma_gap_floor(values, values.len());
    assert(next_above(values, gap_floor(values, values.len())->0) is Some);
    lemma_gap_floor(values, values.len());
    let floor = gap_floor(values, values.len())->0;
    lemma_next_above(values, floor, i);
    let ceiling = next_above(values, floor)->0;
    let k = choose|k: int| 0 <= k < values.len() && values[k] == floor;
    lemma_least_greatest(values, k);
    let m = choose|m: int| 0 <= m < values.len() && values[m] == ceiling;
    lemma_least_greatest(values, m);
}

/// The bounds of a plan lie around the values: its lower bound is not above the least
/// value, and its upper bound not below the greatest.
pub proof fn lemma_plan_bounds(values: Seq<real>)
    requires
        values.len() > 0,
        widest_gap(values, values.len()) != 0real,
    ensures
        skip_plan(values).low <= least(values) <= greatest(values) <= skip_plan(values).high,
{
    lemma_widest_gap_nonnegative(values, values.len());
    lemma_widest_gap_attained(values, values.len());
    lemma_gap_floor(values, values.len());
    assert(next_above(values, gap_floor(values, values.len())->0) is Some);
    lemma_gap_floor(values, values.len());
    let floor = gap_floor(values, values.len())->0;
    lemma_next_above(values, floor, 0);
    let ceiling = next_above(values, floor)->0;
    let k = choose|k: int| 0 <= k < values.len() && values[k] == floor;
    lemma_least_greatest(values, k);
    let m = choose|m: int| 0 <= m < values.len() && values[m] == ceiling;
    lemma_least_greatest(values, m);
}

/// Making the labels pretty leaves a range that is not upside down as it is, or moves it
/// to one that is not upside down.
pub proof fn lemma_pretty_range_in_order(low: real, high: real, height: nat, snap: Option<(bool, bool, real)>)
    requires
        low <= high,
    ensures
        pretty_range(low, high, height, snap).0 <= pretty_range(low, high, height, snap).1,
{
}

} // verus!
