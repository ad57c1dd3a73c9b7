use vstd::prelude::*;
use vstd::seq_lib::group_to_multiset_ensures;

verus! {

/// Timings of one completed request, in milliseconds, and the number of
/// response bytes that were read.
#[derive(Clone, Copy, Debug, PartialEq, Eq)]
pub struct Stats {
    pub connect: u64,
    pub handshake: u64,
    pub waiting: u64,
    pub writing: u64,
    pub complete: u64,
    pub read: u64,
    pub length: usize,
}

/// Per-field sums of the six timings of many requests.
#[derive(Clone, Copy, Debug, PartialEq, Eq)]
pub struct Totals {
    pub connect: u128,
    pub handshake: u128,
    pub waiting: u128,
    pub writing: u128,
    pub complete: u128,
    pub read: u128,
}

/// The three parallel records that successful requests are folded into:
/// the field-wise minimum, the field-wise maximum and the timing sums.
#[derive(Clone, Copy, Debug, PartialEq, Eq)]
pub struct Tally {
    pub min: Stats,
    pub max: Stats,
    pub sum: Totals,
}

/// Running state of a benchmark's statistics.
#[derive(Clone, Copy, Debug, PartialEq, Eq)]
pub struct Aggregate {
    pub tally: Tally,
    pub success: u64,
    pub failure: u64,
}

pub open spec fn least(a: u64, b: u64) -> u64 {
    if a <= b { a } else { b }
}

pub open spec fn greatest(a: u64, b: u64) -> u64 {
    if a <= b { b } else { a }
}

pub open spec fn least_len(a: usize, b: usize) -> usize {
    if a <= b { a } else { b }
}

pub open spec fn greatest_len(a: usize, b: usize) -> usize {
    if a <= b { b } else { a }
}

/// A sum that stops at the largest `u128`; within an aggregate it never
/// reaches that bound (see `Aggregate::wf`).
pub open spec fn capped_sum(t: u128, x: u64) -> u128 {
    if t + x <= u128::MAX { (t + x) as u128 } else { u128::MAX }
}

/// `lo * n <= total <= hi * n`: the sum of `n` values that lie between `lo` and `hi`.
pub open spec fn field_bounded(lo: u64, hi: u64, total: u128, n: int) -> bool {
    lo * n <= total <= hi * n
}

impl Stats {
    /// The record whose every field is zero.
    pub open spec fn spec_zero() -> Stats {
        Stats { connect: 0, handshake: 0, waiting: 0, writing: 0, complete: 0, read: 0, length: 0 }
    }

    /// The record whose every field holds its type's largest value.
    pub open spec fn spec_ceiling() -> Stats {
        Stats {
            connect: u64::MAX,
            handshake: u64::MAX,
            waiting: u64::MAX,
            writing: u64::MAX,
            complete: u64::MAX,
            read: u64::MAX,
            length: usize::MAX,
        }
    }

    pub fn zero() -> (r: Stats)
        ensures
            r == Stats::spec_zero(),
    {
        Stats { connect: 0, handshake: 0, waiting: 0, writing: 0, complete: 0, read: 0, length: 0 }
    }

    pub fn ceiling() -> (r: Stats)
        ensures
            r == Stats::spec_ceiling(),
    {
        Stats {
            connect: u64::MAX,
            handshake: u64::MAX,
            waiting: u64::MAX,
            writing: u64::MAX,
            complete: u64::MAX,
            read: u64::MAX,
            length: usize::MAX,
        }
    }

    /// Field-wise minimum of two records.
    pub open spec fn lower(self, o: Stats) -> Stats {
        Stats {
            connect: least(self.connect, o.connect),
            handshake: least(self.handshake, o.handshake),
            waiting: least(self.waiting, o.waiting),
            writing: least(self.writing, o.writing),
            complete: least(self.complete, o.complete),
            read: least(self.read, o.read),
            length: least_len(self.length, o.length),
        }
    }

    /// Field-wise maximum of two records.
    pub open spec fn upper(self, o: Stats) -> Stats {
        Stats {
            connect: greatest(self.connect, o.connect),
            handshake: greatest(self.handshake, o.handshake),
            waiting: greatest(self.waiting, o.waiting),
            writing: greatest(self.writing, o.writing),
            complete: greatest(self.complete, o.complete),
            read: greatest(self.read, o.read),
            length: greatest_len(self.length, o.length),
        }
    }

    /// Whether the six timings of `self` and `o` can be summed field by field in a `u64`.
    pub open spec fn fits_sum(self, o: Stats) -> bool {
        &&& self.connect + o.connect <= u64::MAX
        &&& self.handshake + o.handshake <= u64::MAX
        &&& self.waiting + o.waiting <= u64::MAX
        &&& self.writing + o.writing <= u64::MAX
        &&& self.complete + o.complete <= u64::MAX
        &&& self.read + o.read <= u64::MAX
    }

    /// Field-wise sum of the timings; the length is the larger of the two.
    pub fn add(self, other: Stats) -> (r: Stats)
        requires
            self.fits_sum(other),
        ensures
            r.connect == self.connect + other.connect,
            r.handshake == self.handshake + other.handshake,
            r.waiting == self.waiting + other.waiting,
            r.writing == self.writing + other.writing,
            r.complete == self.complete + other.complete,
            r.read == self.read + other.read,
            r.length == greatest_len(self.length, other.length),
    {
        Stats {
            connect: self.connect + other.connect,
            waiting: self.waiting + other.waiting,
            writing: self.writing + other.writing,
            handshake: self.handshake + other.handshake,
            complete: self.complete + other.complete,
            read: self.read + other.read,
            length: if self.length <= other.length { other.length } else { self.length },
        }
    }
}

impl Totals {
    pub open spec fn spec_zero() -> Totals {
        Totals { connect: 0, handshake: 0, waiting: 0, writing: 0, complete: 0, read: 0 }
    }

    /// The sums after one more record.
    pub open spec fn plus(self, s: Stats) -> Totals {
        Totals {
            connect: capped_sum(self.connect, s.connect),
            handshake: capped_sum(self.handshake, s.handshake),
            waiting: capped_sum(self.waiting, s.waiting),
            writing: capped_sum(self.writing, s.writing),
            complete: capped_sum(self.complete, s.complete),
            read: capped_sum(self.read, s.read),
        }
    }
}

impl Tally {
    /// The starting point: minima at their largest value, maxima and sums at zero.
    pub open spec fn spec_empty() -> Tally {
        Tally { min: Stats::spec_ceiling(), max: Stats::spec_zero(), sum: Totals::spec_zero() }
    }

    /// The tally after folding in one more record.
    pub open spec fn combined(self, s: Stats) -> Tally {
        Tally { min: self.min.lower(s), max: self.max.upper(s), sum: self.sum.plus(s) }
    }

    /// Each timing sum lies between `n` times the minimum and `n` times the maximum.
    pub open spec fn bounded(self, n: int) -> bool {
        &&& field_bounded(self.min.connect, self.max.connect, self.sum.connect, n)
        &&& field_bounded(self.min.handshake, self.max.handshake, self.sum.handshake, n)
        &&& field_bounded(self.min.waiting, self.max.waiting, self.sum.waiting, n)
        &&& field_bounded(self.min.writing, self.max.writing, self.sum.writing, n)
        &&& field_bounded(self.min.complete, self.max.complete, self.sum.complete, n)
        &&& field_bounded(self.min.read, self.max.read, self.sum.read, n)
    }

    /// The averages of the timings over `divisor` requests; the length is the
    /// largest response seen.
    pub open spec fn averaged(self, divisor: int) -> Stats {
        Stats {
            connect: (self.sum.connect as int / divisor) as u64,
            handshake: (self.sum.handshake as int / divisor) as u64,
            waiting: (self.sum.waiting as int / divisor) as u64,
            writing: (self.sum.writing as int / divisor) as u64,
            complete: (self.sum.complete as int / divisor) as u64,
            read: (self.sum.read as int / divisor) as u64,
            length: self.max.length,
        }
    }
}

/// Folds records into a tally, first to last.
pub open spec fn fold_all(t: Tally, xs: Seq<Stats>) -> Tally
    decreases xs.len(),
{
    if xs.len() == 0 {
        t
    } else {
        fold_all(t, xs.drop_last()).combined(xs.last())
    }
}

proof fn lemma_field_step(lo: u64, hi: u64, total: u128, n: int, x: u64)
    requires
        0 <= n < u64::MAX,
        field_bounded(lo, hi, total, n),
    ensures
        total + x <= u128::MAX,
        field_bounded(least(lo, x), greatest(hi, x), capped_sum(total, x), n + 1),
        capped_sum(total, x) == total + x,
{
    let lo2 = least(lo, x) as int;
    let hi2 = greatest(hi, x) as int;
    assert(lo2 * n <= lo * n) by (nonlinear_arith)
        requires
            lo2 <= lo,
            0 <= n,
    ;
    assert(hi * n <= hi2 * n) by (nonlinear_arith)
        requires
            hi <= hi2,
            0 <= n,
    ;
    assert(lo2 * (n + 1) == lo2 * n + lo2) by (nonlinear_arith);
    assert(hi2 * (n + 1) == hi2 * n + hi2) by (nonlinear_arith);
    assert(hi2 * (n + 1) <= u64::MAX * u64::MAX) by (nonlinear_arith)
        requires
            0 <= hi2 <= u64::MAX,
            0 <= n + 1 <= u64::MAX,
    ;
}

impl Totals {
    /// Whether adding each timing of `s` keeps every sum within `u128`.
    pub open spec fn fits(self, s: Stats) -> bool {
        &&& self.connect + s.connect <= u128::MAX
        &&& self.handshake + s.handshake <= u128::MAX
        &&& self.waiting + s.waiting <= u128::MAX
        &&& self.writing + s.writing <= u128::MAX
        &&& self.complete + s.complete <= u128::MAX
        &&& self.read + s.read <= u128::MAX
    }
}

/// Folds the record `c` into the running field-wise minimum, maximum and
/// timing sums.
pub fn calculate_stats(min_value: &mut Stats, max_value: &mut Stats, c: &Stats, ac: &mut Totals)
    requires
        old(ac).fits(*c),
    ensures
        *final(min_value) == old(min_value).lower(*c),
        *final(max_value) == old(max_value).upper(*c),
        *final(ac) == old(ac).plus(*c),
{
    min_value.connect = if min_value.connect <= c.connect { min_value.connect } else { c.connect };
    min_value.handshake = if min_value.handshake <= c.handshake { min_value.handshake } else { c.handshake };
    min_value.waiting = if min_value.waiting <= c.waiting { min_value.waiting } else { c.waiting };
    min_value.writing = if min_value.writing <= c.writing { min_value.writing } else { c.writing };
    min_value.read = if min_value.read <= c.read { min_value.read } else { c.read };
    min_value.complete = if min_value.complete <= c.complete { min_value.complete } else { c.complete };
    min_value.length = if min_value.length <= c.length { min_value.length } else { c.length };

    max_value.connect = if max_value.connect <= c.connect { c.connect } else { max_value.connect };
    max_value.handshake = if max_value.handshake <= c.handshake { c.handshake } else { max_value.handshake };
    max_value.waiting = if max_value.waiting <= c.waiting { c.waiting } else { max_value.waiting };
    max_value.writing = if max_value.writing <= c.writing { c.writing } else { max_value.writing };
    max_value.read = if max_value.read <= c.read { c.read } else { max_value.read };
    max_value.complete = if max_value.complete <= c.complete { c.complete } else { max_value.complete };
    max_value.length = if max_value.length <= c.length { c.length } else { max_value.length };

    ac.connect = ac.connect + c.connect as u128;
    ac.handshake = ac.handshake + c.handshake as u128;
    ac.waiting = ac.waiting + c.waiting as u128;
    ac.writing = ac.writing + c.writing as u128;
    ac.read = ac.read + c.read as u128;
    ac.complete = ac.complete + c.complete as u128;
}

impl Aggregate {
    /// The sums never exceed what `success` records could add up to.
    pub open spec fn wf(self) -> bool {
        self.tally.bounded(self.success as int)
    }

    pub open spec fn spec_new() -> Aggregate {
        Aggregate { tally: Tally::spec_empty(), success: 0, failure: 0 }
    }

    /// An aggregate that has seen no request.
    pub fn new() -> (r: Aggregate)
        ensures
            r == Aggregate::spec_new(),
            r.wf(),
    {
        Aggregate {
            tally: Tally {
                min: Stats::ceiling(),
                max: Stats::zero(),
                sum: Totals { connect: 0, handshake: 0, waiting: 0, writing: 0, complete: 0, read: 0 },
            },
            success: 0,
            failure: 0,
        }
    }

    /// Folds one successful request into the minima, maxima and sums.
    pub fn fold(&mut self, s: &Stats)
        requires
            old(self).wf(),
            old(self).success < u64::MAX,
        ensures
            final(self).wf(),
            final(self).tally == old(self).tally.combined(*s),
            final(self).success == old(self).success + 1,
            final(self).failure == old(self).failure,
    {
        let ghost n = self.success as int;
        let ghost t = self.tally;
        proof {
            lemma_field_step(t.min.connect, t.max.connect, t.sum.connect, n, s.connect);
            lemma_field_step(t.min.handshake, t.max.handshake, t.sum.handshake, n, s.handshake);
            lemma_field_step(t.min.waiting, t.max.waiting, t.sum.waiting, n, s.waiting);
            lemma_field_step(t.min.writing, t.max.writing, t.sum.writing, n, s.writing);
            lemma_field_step(t.min.complete, t.max.complete, t.sum.complete, n, s.complete);
            lemma_field_step(t.min.read, t.max.read, t.sum.read, n, s.read);
        }
        let mut min_value = self.tally.min;
        let mut max_value = self.tally.max;
        let mut sum = self.tally.sum;
        calculate_stats(&mut min_value, &mut max_value, s, &mut sum);
        self.tally = Tally { min: min_value, max: max_value, sum };
        self.success = self.success + 1;
    }

    /// Counts one failed request; the statistics are left as they are.
    pub fn record_failure(&mut self)
        requires
            old(self).failure < u64::MAX,
        ensures
            final(self).tally == old(self).tally,
            final(self).success == old(self).success,
            final(self).failure == old(self).failure + 1,
    {
        self.failure = self.failure + 1;
    }

    /// The average of each timing over `divisor` requests (the configured
    /// request count, not the number that succeeded); the length is the
    /// largest response seen.
    pub fn average(&self, divisor: u64) -> (r: Stats)
        requires
            self.wf(),
            0 < divisor,
            self.success <= divisor,
        ensures
            r == self.tally.averaged(divisor as int),
    {
        let t = self.tally;
        proof {
            lemma_quotient_fits(t.max.connect, t.sum.connect, self.success, divisor);
            lemma_quotient_fits(t.max.handshake, t.sum.handshake, self.success, divisor);
            lemma_quotient_fits(t.max.waiting, t.sum.waiting, self.success, divisor);
            lemma_quotient_fits(t.max.writing, t.sum.writing, self.success, divisor);
            lemma_quotient_fits(t.max.complete, t.sum.complete, self.success, divisor);
            lemma_quotient_fits(t.max.read, t.sum.read, self.success, divisor);
        }
        let d = divisor as u128;
        Stats {
            connect: (t.sum.connect / d) as u64,
            handshake: (t.sum.handshake / d) as u64,
            waiting: (t.sum.waiting / d) as u64,
            writing: (t.sum.writing / d) as u64,
            complete: (t.sum.complete / d) as u64,
            read: (t.sum.read / d) as u64,
            length: t.max.length,
        }
    }
}

proof fn lemma_quotient_fits(hi: u64, total: u128, n: u64, d: u64)
    requires
        total <= hi * n,
        0 < d,
        n <= d,
    ensures
        total as int / d as int <= u64::MAX,
{
    assert(hi * n <= hi * d) by (nonlinear_arith)
        requires
            n <= d,
    ;
    assert(total as int / d as int <= hi as int) by (nonlinear_arith)
        requires
            total <= hi * d,
            0 < d,
    ;
}

proof fn lemma_field_average(lo: u64, hi: u64, total: u128, n: int)
    requires
        0 < n,
        field_bounded(lo, hi, total, n),
    ensures
        lo <= total as int / n <= hi,
{
    assert(lo <= total as int / n) by (nonlinear_arith)
        requires
            lo * n <= total,
            0 < n,
    ;
    assert(total as int / n <= hi) by (nonlinear_arith)
        requires
            total <= hi * n,
            0 < n,
    ;
}

/// Over any non-empty set of successful requests, averaged over exactly
/// those requests, every timing's average lies between its minimum and its
/// maximum.
pub proof fn lemma_average_between_extremes(a: Aggregate, divisor: int)
    requires
        a.wf(),
        a.success > 0,
        divisor == a.success,
    ensures
        ({
            let avg = a.tally.averaged(divisor);
            &&& a.tally.min.connect <= avg.connect <= a.tally.max.connect
            &&& a.tally.min.handshake <= avg.handshake <= a.tally.max.handshake
            &&& a.tally.min.waiting <= avg.waiting <= a.tally.max.waiting
            &&& a.tally.min.writing <= avg.writing <= a.tally.max.writing
            &&& a.tally.min.complete <= avg.complete <= a.tally.max.complete
            &&& a.tally.min.read <= avg.read <= a.tally.max.read
        }),
{
    let t = a.tally;
    let n = a.success as int;
    lemma_field_average(t.min.connect, t.max.connect, t.sum.connect, n);
    lemma_field_average(t.min.handshake, t.max.handshake, t.sum.handshake, n);
    lemma_field_average(t.min.waiting, t.max.waiting, t.sum.waiting, n);
    lemma_field_average(t.min.writing, t.max.writing, t.sum.writing, n);
    lemma_field_average(t.min.complete, t.max.complete, t.sum.complete, n);
    lemma_field_average(t.min.read, t.max.read, t.sum.read, n);
}

/// Folding records from the empty tally keeps every sum between the count
/// times the minimum and the count times the maximum.
proof fn lemma_fold_bounded(xs: Seq<Stats>)
    requires
        xs.len() <= u64::MAX,
    ensures
        fold_all(Tally::spec_empty(), xs).bounded(xs.len() as int),
    decreases xs.len(),
{
    if xs.len() > 0 {
        let init = xs.drop_last();
        lemma_fold_bounded(init);
        let t = fold_all(Tally::spec_empty(), init);
        let n = init.len() as int;
        let x = xs.last();
        lemma_field_step(t.min.connect, t.max.connect, t.sum.connect, n, x.connect);
        lemma_field_step(t.min.handshake, t.max.handshake, t.sum.handshake, n, x.handshake);
        lemma_field_step(t.min.waiting, t.max.waiting, t.sum.waiting, n, x.waiting);
        lemma_field_step(t.min.writing, t.max.writing, t.sum.writing, n, x.writing);
        lemma_field_step(t.min.complete, t.max.complete, t.sum.complete, n, x.complete);
        lemma_field_step(t.min.read, t.max.read, t.sum.read, n, x.read);
    }
}

/// After folding any non-empty list of records (as `calculate_stats` does,
/// one at a time, from the empty tally), every timing's sum divided by the
/// number of records lies between its minimum and its maximum.
pub proof fn lemma_folded_average_between_extremes(xs: Seq<Stats>)
    requires
        0 < xs.len() <= u64::MAX,
    ensures
        ({
            let t = fold_all(Tally::spec_empty(), xs);
            let avg = t.averaged(xs.len() as int);
            &&& t.min.connect <= avg.connect <= t.max.connect
            &&& t.min.handshake <= avg.handshake <= t.max.handshake
            &&& t.min.waiting <= avg.waiting <= t.max.waiting
            &&& t.min.writing <= avg.writing <= t.max.writing
            &&& t.min.complete <= avg.complete <= t.max.complete
            &&& t.min.read <= avg.read <= t.max.read
        }),
{
    lemma_fold_bounded(xs);
    let t = fold_all(Tally::spec_empty(), xs);
    let n = xs.len() as int;
    lemma_field_average(t.min.connect, t.max.connect, t.sum.connect, n);
    lemma_field_average(t.min.handshake, t.max.handshake, t.sum.handshake, n);
    lemma_field_average(t.min.waiting, t.max.waiting, t.sum.waiting, n);
    lemma_field_average(t.min.writing, t.max.writing, t.sum.writing, n);
    lemma_field_average(t.min.complete, t.max.complete, t.sum.complete, n);
    lemma_field_average(t.min.read, t.max.read, t.sum.read, n);
}

proof fn lemma_combine_swap(t: Tally, x: Stats, y: Stats)
    ensures
        t.combined(x).combined(y) == t.combined(y).combined(x),
{
}

proof fn lemma_fold_moves_to_end(t: Tally, ys: Seq<Stats>, i: int)
    requires
        0 <= i < ys.len(),
    ensures
        fold_all(t, ys) == fold_all(t, ys.remove(i)).combined(ys[i]),
    decreases ys.len(),
{
    if i == ys.len() - 1 {
        assert(ys.remove(i) =~= ys.drop_last());
    } else {
        let init = ys.drop_last();
        let z = ys.last();
        lemma_fold_moves_to_end(t, init, i);
        assert(ys.remove(i).drop_last() =~= init.remove(i));
        assert(ys.remove(i).last() == z);
        lemma_combine_swap(fold_all(t, init.remove(i)), ys[i], z);
    }
}

/// Folding the same records in any order gives the same minima, maxima and sums.
pub proof fn lemma_fold_order_independent(t: Tally, xs: Seq<Stats>, ys: Seq<Stats>)
    requires
        xs.to_multiset() == ys.to_multiset(),
    ensures
        fold_all(t, xs) == fold_all(t, ys),
    decreases xs.len(),
{
    broadcast use group_to_multiset_ensures;

    if xs.len() == 0 {
        assert(xs.to_multiset().len() == 0);
        assert(ys.to_multiset().len() == ys.len());
        assert(ys =~= xs);
    } else {
        let x = xs.last();
        let init = xs.drop_last();
        assert(xs =~= init.push(x));
        assert(xs[xs.len() - 1] == x);
        assert(xs.contains(x));
        assert(ys.to_multiset().count(x) > 0);
        assert(ys.contains(x));
        let i = choose|i: int| 0 <= i < ys.len() && ys[i] == x;
        assert(init.to_multiset() =~= ys.remove(i).to_multiset());
        lemma_fold_order_independent(t, init, ys.remove(i));
        lemma_fold_moves_to_end(t, ys, i);
    }
}

} // verus!
