//! Tracked metrics: ring-buffered sample history, per-instance colors and
//! fitted curves, and the animated display range.
//!
//! A `CounterV2` is one tracked metric; a `QueryV2` is the ordered
//! collection of tracked metrics. Sample values are fixed-point
//! milli-units (see `fixed`).

use vstd::prelude::*;

verus! {

use crate::fixed::{
    all_bounded, div_i128, div_trunc, lemma_div_trunc_bound, lemma_div_trunc_ordered, max_i64,
    mul_i128, seq_int,
};
use crate::spline::{InterpolatedCurve, MAX_SAMPLE};

/// Ticks of history a metric's ring buffer keeps.
pub const SAMPLE_COUNT: usize = 20;

/// Largest instance count a metric accepts; keeps every buffer index and
/// length inside `usize` on any platform.
pub const MAX_INSTANCES: usize = 10_000_000;

/// Relies on random_color's `RandomColor`: draws a random color of light
/// luminosity as an `[r, g, b]` array. The result is random, so nothing
/// is promised of it.
#[verifier::external_body]
fn random_light_rgb() -> (r: [u8; 3]) {
    random_color::RandomColor::new().luminosity(
        random_color::options::Luminosity::Light,
    ).to_rgb_array()
}

/// Largest element of a non-empty sequence.
pub open spec fn seq_max(s: Seq<int>) -> int
    decreases s.len(),
{
    if s.len() <= 1 {
        s[0]
    } else {
        vstd::math::max(seq_max(s.drop_last()), s.last())
    }
}

/// Sum of a sequence's elements.
pub open spec fn seq_sum(s: Seq<int>) -> int
    decreases s.len(),
{
    if s.len() == 0 {
        0
    } else {
        seq_sum(s.drop_last()) + s.last()
    }
}

/// The per-tick maxima of an interleaved buffer of `ticks` ticks with
/// `nb` instances each: element `t` is the largest of the `nb` values
/// sampled at tick `t`.
pub open spec fn tick_maxima(s: Seq<int>, nb: nat, ticks: nat) -> Seq<int> {
    Seq::new(ticks, |t: int| seq_max(s.subrange(t * nb, t * nb + nb)))
}

/// Largest slice maximum over the whole buffer.
pub open spec fn buffer_max(s: Seq<int>, nb: nat, ticks: nat) -> int {
    seq_max(tick_maxima(s, nb, ticks))
}

/// Mean (truncating) of the slice maxima over the whole buffer.
pub open spec fn buffer_avg(s: Seq<int>, nb: nat, ticks: nat) -> int {
    div_trunc(seq_sum(tick_maxima(s, nb, ticks)), ticks as int)
}

/// Column `i` of an interleaved buffer: instance `i`'s sample at every
/// kept tick, oldest first.
pub open spec fn column(s: Seq<int>, nb: nat, ticks: nat, i: nat) -> Seq<int> {
    Seq::new(ticks, |t: int| s[t * nb + i])
}

/// The display floor of a `{max, avg}` range pair, in milli-units:
/// at least one unit, and at least both the peak and twice the mean.
pub open spec fn range_floor(mx: int, av: int) -> int {
    vstd::math::max(1000, vstd::math::max(mx, 2 * av))
}

/// The animated display range: the previous floor blended toward the
/// current floor by the elapsed fraction `t` (milli-units, `0 <= t < 1000`).
pub open spec fn spec_display_range(prev: int, cur: int, t: int) -> int {
    prev + div_trunc((cur - prev) * t, 1000)
}

/// The blended display range never drops below either floor's minimum;
/// in particular it is always at least one unit.
pub proof fn lemma_display_range_at_least(prev: int, cur: int, t: int)
    requires
        prev >= 1000,
        cur >= 1000,
        0 <= t < 1000,
    ensures
        spec_display_range(prev, cur, t) >= 1000,
{
    let diff = cur - prev;
    if diff >= 0 {
        vstd::arithmetic::div_mod::lemma_div_pos_is_pos(diff * t, 1000);
        assert(diff * t >= 0) by (nonlinear_arith)
            requires
                diff >= 0,
                t >= 0,
        ;
    } else {
        assert(diff * t >= diff * 1000) by (nonlinear_arith)
            requires
                diff < 0,
                0 <= t < 1000,
        ;
        lemma_div_trunc_ordered(diff * 1000, diff * t, 1000);
        assert(div_trunc(diff * 1000, 1000) == diff) by {
            vstd::arithmetic::div_mod::lemma_div_by_multiple(-diff, 1000);
        }
    }
}

/// For a fixed previous floor and elapsed fraction, the blended display
/// range is monotone in the current floor: it grows only as
/// `max(curr.max, curr.avg * 2)` grows.
pub proof fn lemma_display_range_monotone(prev: int, cur1: int, cur2: int, t: int)
    requires
        cur1 <= cur2,
        0 <= t < 1000,
    ensures
        spec_display_range(prev, cur1, t) <= spec_display_range(prev, cur2, t),
{
    assert((cur1 - prev) * t <= (cur2 - prev) * t) by (nonlinear_arith)
        requires
            cur1 <= cur2,
            t >= 0,
    ;
    lemma_div_trunc_ordered((cur1 - prev) * t, (cur2 - prev) * t, 1000);
}

/// The range floor is monotone in both components of the pair.
pub proof fn lemma_range_floor_monotone(mx1: int, av1: int, mx2: int, av2: int)
    requires
        mx1 <= mx2,
        av1 <= av2,
    ensures
        range_floor(mx1, av1) <= range_floor(mx2, av2),
{
}

/// One tracked metric: its counter path, current instances with their
/// stable display colors, the interleaved ring buffer of recent samples,
/// the two-slot `{max, avg}` range history, and the per-instance fitted
/// curves.
pub struct CounterV2 {
    path: String,
    nb_instance: usize,
    instance_names: Vec<String>,
    instance_colors: Vec<[u8; 4]>,
    data: Vec<i64>,
    ticks_seen: u64,
    max: [i64; 2],
    avg: [i64; 2],
    curves: Vec<InterpolatedCurve>,
}

impl CounterV2 {
    /// The metric's display path.
    pub closed spec fn path_spec(&self) -> Seq<char> {
        self.path@
    }

    /// Current instance count.
    pub closed spec fn instance_count(&self) -> nat {
        self.nb_instance as nat
    }

    /// Ordered instance names.
    pub closed spec fn names(&self) -> Seq<Seq<char>> {
        self.instance_names@.map_values(|s: String| s@)
    }

    /// Per-instance display colors (RGBA).
    pub closed spec fn colors(&self) -> Seq<[u8; 4]> {
        self.instance_colors@
    }

    /// The interleaved ring buffer, in milli-units.
    pub closed spec fn data_spec(&self) -> Seq<int> {
        seq_int(self.data@)
    }

    /// Ticks ingested since the last reset (not capped by the buffer
    /// depth).
    pub closed spec fn ticks(&self) -> nat {
        self.ticks_seen as nat
    }

    /// Ticks actually kept in the buffer.
    pub open spec fn kept_ticks(&self) -> nat {
        vstd::math::min(self.ticks() as int, SAMPLE_COUNT as int) as nat
    }

    /// Previous and current buffer maximum.
    pub closed spec fn max_spec(&self) -> (int, int) {
        (self.max[0] as int, self.max[1] as int)
    }

    /// Previous and current mean of slice maxima.
    pub closed spec fn avg_spec(&self) -> (int, int) {
        (self.avg[0] as int, self.avg[1] as int)
    }

    /// The fitted per-instance curves.
    pub closed spec fn curves_spec(&self) -> Seq<InterpolatedCurve> {
        self.curves@
    }

    /// Structural invariant: names and colors track the instance count;
    /// the buffer holds exactly `instance_count * min(ticks_seen,
    /// SAMPLE_COUNT)` bounded samples, interleaved per tick; the range
    /// pairs are bounded; and when at least two ticks are kept there is
    /// one well-formed curve per instance, fitted through its column.
    pub closed spec fn wf(&self) -> bool {
        &&& self.nb_instance <= MAX_INSTANCES
        &&& self.instance_names.len() == self.nb_instance
        &&& self.instance_colors.len() == self.nb_instance
        &&& self.data.len() == self.instance_count() * self.kept_ticks()
        &&& all_bounded(self.data_spec(), MAX_SAMPLE as int)
        &&& self.nb_instance == 0 ==> self.ticks_seen == 0
        &&& -MAX_SAMPLE <= self.max[0] <= MAX_SAMPLE
        &&& -MAX_SAMPLE <= self.max[1] <= MAX_SAMPLE
        &&& -MAX_SAMPLE <= self.avg[0] <= MAX_SAMPLE
        &&& -MAX_SAMPLE <= self.avg[1] <= MAX_SAMPLE
        &&& if self.kept_ticks() >= 2 && self.nb_instance > 0 {
            &&& self.curves.len() == self.nb_instance
            &&& forall|i: int|
                0 <= i < self.nb_instance ==> (#[trigger] self.curves@[i]).wf()
                    && self.curves@[i].samples() == column(
                    self.data_spec(),
                    self.instance_count(),
                    self.kept_ticks(),
                    i as nat,
                ) && self.curves@[i].segments() + 1 == self.kept_ticks()
        } else {
            self.curves.len() == 0
        }
    }

    /// The ring buffer length always equals
    /// `instance_count * min(ticks_seen, SAMPLE_COUNT)`, and so never
    /// exceeds `instance_count * SAMPLE_COUNT`.
    pub proof fn lemma_buffer_len(&self)
        requires
            self.wf(),
        ensures
            self.data_spec().len() == self.instance_count() * vstd::math::min(
                self.ticks() as int,
                SAMPLE_COUNT as int,
            ),
            self.data_spec().len() <= self.instance_count() * (SAMPLE_COUNT as int),
    {
        assert(self.instance_count() * self.kept_ticks() <= self.instance_count() * (
        SAMPLE_COUNT as int)) by (nonlinear_arith)
            requires
                self.kept_ticks() <= SAMPLE_COUNT as int,
        ;
    }

    /// A fresh metric for one tracked path: no instances, no history.
    pub fn new(path: String) -> (r: CounterV2)
        ensures
            r.wf(),
            r.path_spec() == path@,
            r.instance_count() == 0,
            r.ticks() == 0,
            r.max_spec() == (0int, 0int),
            r.avg_spec() == (0int, 0int),
    {
        proof {
            assert((0 as nat) * vstd::math::min(0, SAMPLE_COUNT as int) == 0) by (nonlinear_arith);
        }
        CounterV2 {
            path,
            nb_instance: 0,
            instance_names: Vec::new(),
            instance_colors: Vec::new(),
            data: Vec::new(),
            ticks_seen: 0,
            max: [0, 0],
            avg: [0, 0],
            curves: Vec::new(),
        }
    }
}

/// The values of one tick, in metric order.
pub open spec fn view_tick(vals: Seq<(String, i64)>) -> Seq<int> {
    vals.map_values(|p: (String, i64)| p.1 as int)
}

/// The instance names of one tick, in metric order.
pub open spec fn view_names(vals: Seq<(String, i64)>) -> Seq<Seq<char>> {
    vals.map_values(|p: (String, i64)| p.0@)
}

/// Computes the `{max, avg}` range of an interleaved buffer: the largest
/// per-tick slice maximum, and the truncating mean of the slice maxima.
fn compute_range(data: &Vec<i64>, nb: usize, ticks: usize) -> (r: (i64, i64))
    requires
        1 <= nb <= MAX_INSTANCES,
        1 <= ticks <= SAMPLE_COUNT,
        data.len() == nb * ticks,
        all_bounded(seq_int(data@), MAX_SAMPLE as int),
    ensures
        r.0 as int == buffer_max(seq_int(data@), nb as nat, ticks as nat),
        r.1 as int == buffer_avg(seq_int(data@), nb as nat, ticks as nat),
        -MAX_SAMPLE <= r.0 <= MAX_SAMPLE,
        -MAX_SAMPLE <= r.1 <= MAX_SAMPLE,
{
    let ghost s = seq_int(data@);
    let ghost tm = tick_maxima(s, nb as nat, ticks as nat);
    proof {
        assert(nb * 1 <= nb * ticks && nb * ticks <= MAX_INSTANCES * SAMPLE_COUNT)
            by (nonlinear_arith)
            requires
                1 <= ticks <= SAMPLE_COUNT,
                1 <= nb <= MAX_INSTANCES,
        ;
    }
    let mut mx: i64 = 0;
    let mut sum: i128 = 0;
    let mut t: usize = 0;
    while t < ticks
        invariant
            0 <= t <= ticks,
            1 <= nb <= MAX_INSTANCES,
            1 <= ticks <= SAMPLE_COUNT,
            data.len() == nb * ticks,
            s == seq_int(data@),
            all_bounded(s, MAX_SAMPLE as int),
            tm == tick_maxima(s, nb as nat, ticks as nat),
            t >= 1 ==> mx as int == seq_max(tm.take(t as int)),
            t >= 1 ==> -MAX_SAMPLE <= mx <= MAX_SAMPLE,
            sum == seq_sum(tm.take(t as int)),
            -(t * (MAX_SAMPLE as int)) <= sum <= t * (MAX_SAMPLE as int),
        decreases ticks - t,
    {
        proof {
            assert(t * nb + nb <= ticks * nb && 0 <= t * nb) by (nonlinear_arith)
                requires
                    0 <= t < ticks,
                    1 <= nb,
            ;
            assert(ticks * nb == nb * ticks) by (nonlinear_arith);
        }
        let base: usize = t * nb;
        let mut sm: i64 = data[base];
        let mut k: usize = 1;
        proof {
            assert(s.subrange(base as int, base as int + 1).len() == 1);
            assert(seq_max(s.subrange(base as int, base as int + 1)) == s[base as int]);
        }
        while k < nb
            invariant
                1 <= k <= nb,
                base == t * nb,
                base + nb <= data.len(),
                s == seq_int(data@),
                all_bounded(s, MAX_SAMPLE as int),
                sm as int == seq_max(s.subrange(base as int, base as int + k)),
                -MAX_SAMPLE <= sm <= MAX_SAMPLE,
            decreases nb - k,
        {
            let v: i64 = data[base + k];
            proof {
                let sub1 = s.subrange(base as int, base as int + k + 1);
                let sub0 = s.subrange(base as int, base as int + k);
                assert(sub1.drop_last() =~= sub0);
                assert(sub1.last() == s[base as int + k]);
                assert(s[base + k] == data@[base + k] as int);
            }
            sm = max_i64(sm, v);
            k = k + 1;
        }
        proof {
            assert(sm as int == tm[t as int]);
            let taken1 = tm.take(t as int + 1);
            assert(taken1.drop_last() =~= tm.take(t as int));
            assert(taken1.last() == tm[t as int]);
            if t == 0 {
                assert(seq_max(taken1) == tm[0]);
            }
            assert((t + 1) * (MAX_SAMPLE as int) == t * (MAX_SAMPLE as int) + MAX_SAMPLE)
                by (nonlinear_arith);
        }
        if t == 0 {
            mx = sm;
        } else {
            mx = max_i64(mx, sm);
        }
        sum = sum + (sm as i128);
        t = t + 1;
    }
    proof {
        assert(tm.take(ticks as int) =~= tm);
        assert(ticks * (MAX_SAMPLE as int) <= 20 * (MAX_SAMPLE as int)) by (nonlinear_arith)
            requires
                ticks <= 20,
        ;
        lemma_div_trunc_bound(seq_sum(tm), ticks as int, ticks * (MAX_SAMPLE as int));
        assert((ticks * (MAX_SAMPLE as int)) / (ticks as int) == MAX_SAMPLE) by {
            vstd::arithmetic::div_mod::lemma_div_by_multiple(MAX_SAMPLE as int, ticks as int);
            assert(ticks * (MAX_SAMPLE as int) == (MAX_SAMPLE as int) * ticks) by (nonlinear_arith);
        }
    }
    let av: i128 = div_i128(sum, ticks as i128);
    (mx, av as i64)
}

impl CounterV2 {
    /// What one ingest does. With no tick, or an empty one, the metric is
    /// left untouched. Otherwise: a changed instance count first resets
    /// buffer, names, colors and curves; the tick's values are appended
    /// (one per instance, interleaved) and the buffer trimmed to
    /// `SAMPLE_COUNT` ticks; the curves are refitted once two ticks are
    /// kept; and the `{max, avg}` range pair shifts, its current slot
    /// recomputed from the whole buffer.
    pub open spec fn update_post(pre: CounterV2, post: CounterV2, tick: Option<Seq<(String, i64)>>) -> bool {
        match tick {
            None => post == pre,
            Some(vals) => if vals.len() == 0 {
                post == pre
            } else {
                let nb = vals.len();
                let reset = nb != pre.instance_count();
                &&& post.path_spec() == pre.path_spec()
                &&& post.instance_count() == nb
                &&& post.names() == if reset {
                    view_names(vals)
                } else {
                    pre.names()
                }
                &&& if reset {
                    &&& post.colors().len() == nb
                    &&& forall|i: int| 0 <= i < nb ==> (#[trigger] post.colors()[i])[3] == 255
                } else {
                    post.colors() == pre.colors()
                }
                &&& post.ticks() == if reset {
                    1nat
                } else if pre.ticks() < u64::MAX {
                    pre.ticks() + 1
                } else {
                    pre.ticks()
                }
                &&& post.data_spec() == if reset {
                    view_tick(vals)
                } else {
                    (pre.data_spec() + view_tick(vals)).skip(
                        if pre.kept_ticks() == SAMPLE_COUNT {
                            nb as int
                        } else {
                            0
                        },
                    )
                }
                &&& post.max_spec().0 == pre.max_spec().1
                &&& post.avg_spec().0 == pre.avg_spec().1
                &&& post.max_spec().1 == buffer_max(post.data_spec(), nb, post.kept_ticks())
                &&& post.avg_spec().1 == buffer_avg(post.data_spec(), nb, post.kept_ticks())
                &&& if post.kept_ticks() >= 2 {
                    &&& post.curves_spec().len() == nb
                    &&& forall|i: int|
                        0 <= i < nb ==> (#[trigger] post.curves_spec()[i]).wf()
                            && post.curves_spec()[i].samples() == column(
                            post.data_spec(),
                            nb,
                            post.kept_ticks(),
                            i as nat,
                        )
                } else {
                    post.curves_spec().len() == 0
                }
            },
        }
    }

    /// The animated display range for the elapsed fraction `t`
    /// (milli-units of the sampling interval): the previous range floor
    /// blended linearly toward the current one. Never below one unit.
    pub fn display_range(&self, t: i64) -> (r: i64)
        requires
            self.wf(),
            0 <= t < 1000,
        ensures
            r as int == spec_display_range(
                range_floor(self.max_spec().0, self.avg_spec().0),
                range_floor(self.max_spec().1, self.avg_spec().1),
                t as int,
            ),
            1000 <= r <= 4 * MAX_SAMPLE,
    {
        let old_range: i64 = max_i64(1000, max_i64(self.max[0], 2 * self.avg[0]));
        let new_range: i64 = max_i64(1000, max_i64(self.max[1], 2 * self.avg[1]));
        let blended: i128 = div_i128(
            mul_i128((new_range as i128) - (old_range as i128), t as i128),
            1000,
        );
        proof {
            let diff = new_range as int - old_range as int;
            assert(-2_000_000_000_000_000_000 <= diff * t <= 2_000_000_000_000_000_000)
                by (nonlinear_arith)
                requires
                    -2_000_000_000_000_000 <= diff <= 2_000_000_000_000_000,
                    0 <= t < 1000,
            ;
            lemma_div_trunc_bound(diff * t, 1000, 2_000_000_000_000_000_000);
            lemma_display_range_at_least(old_range as int, new_range as int, t as int);
        }
        (old_range as i128 + blended) as i64
    }

    /// The metric's display path.
    pub fn path(&self) -> (r: &String)
        ensures
            r@ == self.path_spec(),
    {
        &self.path
    }

    /// Current instance count.
    pub fn instances(&self) -> (r: usize)
        ensures
            r as nat == self.instance_count(),
    {
        self.nb_instance
    }

    /// Ticks ingested since the last reset.
    pub fn ticks_ingested(&self) -> (r: u64)
        ensures
            r as nat == self.ticks(),
    {
        self.ticks_seen
    }

    /// The stable display color of instance `i`.
    pub fn color(&self, i: usize) -> (r: [u8; 4])
        requires
            self.wf(),
            i < self.instance_count(),
        ensures
            r == self.colors()[i as int],
    {
        self.instance_colors[i]
    }

    /// The name of instance `i`.
    pub fn name_at(&self, i: usize) -> (r: &String)
        requires
            self.wf(),
            i < self.instance_count(),
        ensures
            r@ == self.names()[i as int],
    {
        &self.instance_names[i]
    }

    /// How many fitted curves the metric currently holds: one per
    /// instance once two ticks are kept, none before.
    pub fn curve_count(&self) -> (r: usize)
        ensures
            r as nat == self.curves_spec().len(),
    {
        self.curves.len()
    }

    /// A metric holds either no curves at all, or exactly one per
    /// instance.
    pub proof fn lemma_curves_shape(&self)
        requires
            self.wf(),
        ensures
            self.curves_spec().len() == 0 || self.curves_spec().len() == self.instance_count(),
    {
    }

    /// The fitted curve of instance `i`.
    pub fn curve(&self, i: usize) -> (r: &InterpolatedCurve)
        requires
            self.wf(),
            i < self.curves_spec().len(),
        ensures
            *r == self.curves_spec()[i as int],
            r.wf(),
            r.segments() + 1 == self.kept_ticks(),
            r.samples() == column(
                self.data_spec(),
                self.instance_count(),
                self.kept_ticks(),
                i as nat,
            ),
    {
        &self.curves[i]
    }

    /// The buffered samples regrouped per instance, oldest tick first:
    /// `None` while the buffer is empty.
    pub fn get_data_by_instance(&self) -> (r: Option<Vec<Vec<i64>>>)
        requires
            self.wf(),
        ensures
            match r {
                None => self.data_spec().len() == 0,
                Some(v) => self.data_spec().len() > 0 && v@.len() == self.instance_count()
                    && forall|i: int|
                    0 <= i < v@.len() ==> seq_int((#[trigger] v@[i])@) == column(
                        self.data_spec(),
                        self.instance_count(),
                        self.kept_ticks(),
                        i as nat,
                    ),
            },
    {
        if self.data.len() == 0 {
            return None;
        }
        let nb: usize = self.nb_instance;
        proof {
            if nb == 0 {
                assert(self.instance_count() * self.kept_ticks() == 0) by (nonlinear_arith)
                    requires
                        self.instance_count() == 0,
                ;
            }
            assert(nb >= 1);
            vstd::arithmetic::div_mod::lemma_div_by_multiple(self.kept_ticks() as int, nb as int);
            assert(nb * self.kept_ticks() == self.kept_ticks() * nb) by (nonlinear_arith);
            if self.kept_ticks() == 0 {
                assert(self.instance_count() * self.kept_ticks() == 0) by (nonlinear_arith)
                    requires
                        self.kept_ticks() == 0,
                ;
            }
        }
        let ticks: usize = self.data.len() / nb;
        let ghost s = seq_int(self.data@);
        let mut out: Vec<Vec<i64>> = Vec::new();
        let mut i: usize = 0;
        while i < nb
            invariant
                0 <= i <= nb,
                1 <= nb <= MAX_INSTANCES,
                1 <= ticks <= SAMPLE_COUNT,
                ticks == self.kept_ticks(),
                self.wf(),
                nb == self.instance_count(),
                self.data.len() == nb * ticks,
                s == seq_int(self.data@),
                out@.len() == i,
                forall|q: int|
                    0 <= q < i ==> seq_int((#[trigger] out@[q])@) == column(
                        s,
                        nb as nat,
                        ticks as nat,
                        q as nat,
                    ),
            decreases nb - i,
        {
            let mut col: Vec<i64> = Vec::new();
            let mut t: usize = 0;
            while t < ticks
                invariant
                    0 <= t <= ticks,
                    i < nb,
                    1 <= nb,
                    ticks <= SAMPLE_COUNT,
                    self.data.len() == nb * ticks,
                    s == seq_int(self.data@),
                    col.len() == t,
                    forall|q: int| 0 <= q < t ==> #[trigger] col@[q] as int == s[q * nb + i],
                decreases ticks - t,
            {
                proof {
                    assert(t * nb + i < ticks * nb && 0 <= t * nb + i) by (nonlinear_arith)
                        requires
                            0 <= t < ticks,
                            0 <= i < nb,
                    ;
                    assert(ticks * nb == nb * ticks) by (nonlinear_arith);
                    assert(s[t * nb + i] == self.data@[t * nb + i] as int);
                }
                col.push(self.data[t * nb + i]);
                t = t + 1;
            }
            proof {
                assert(seq_int(col@) =~= column(s, nb as nat, ticks as nat, i as nat));
            }
            out.push(col);
            i = i + 1;
        }
        Some(out)
    }

    /// Ingests one tick of samples, as the ordered `(instance name,
    /// value)` list the collector reported, or `None` when the collector
    /// had no data.
    pub fn update(&mut self, tick: Option<Vec<(String, i64)>>)
        requires
            old(self).wf(),
            tick_view_ok(tick),
        ensures
            final(self).wf(),
            CounterV2::update_post(
                *old(self),
                *final(self),
                match tick {
                    Some(vals) => Some(vals@),
                    None => None,
                },
            ),
    {
        if tick.is_none() {
            return ;
        }
        let vals: Vec<(String, i64)> = tick.unwrap();
        if vals.len() == 0 {
            return ;
        }
        let nb: usize = vals.len();
        let ghost pre = *self;

        if nb != self.nb_instance {
            self.nb_instance = nb;
            self.data = Vec::new();
            self.curves = Vec::new();
            self.ticks_seen = 0;
            let mut colors: Vec<[u8; 4]> = Vec::new();
            let mut names: Vec<String> = Vec::new();
            let mut k: usize = 0;
            while k < nb
                invariant
                    0 <= k <= nb,
                    nb == vals.len(),
                    colors.len() == k,
                    names.len() == k,
                    forall|i: int| 0 <= i < k ==> (#[trigger] colors@[i])[3] == 255,
                    forall|i: int| 0 <= i < k ==> #[trigger] names@[i]@ == vals@[i].0@,
                decreases nb - k,
            {
                let rgb: [u8; 3] = random_light_rgb();
                colors.push([rgb[0], rgb[1], rgb[2], 255]);
                names.push(vals[k].0.clone());
                k = k + 1;
            }
            self.instance_colors = colors;
            self.instance_names = names;
        }
        let ghost mid = *self;
        let ghost pre_data = self.data@;

        // append one value per instance, interleaved
        let mut k: usize = 0;
        while k < nb
            invariant
                0 <= k <= nb,
                nb == vals.len(),
                self.data@ == pre_data + vals@.map_values(|p: (String, i64)| p.1).take(k as int),
                self.path == mid.path,
                self.nb_instance == mid.nb_instance,
                self.instance_names == mid.instance_names,
                self.instance_colors == mid.instance_colors,
                self.ticks_seen == mid.ticks_seen,
                self.max == mid.max,
                self.avg == mid.avg,
                self.curves == mid.curves,
            decreases nb - k,
        {
            proof {
                let short = vals@.map_values(|p: (String, i64)| p.1);
                assert(short.take(k as int + 1).drop_last() =~= short.take(k as int));
                assert(pre_data + short.take(k as int + 1) =~= (pre_data + short.take(
                    k as int,
                )).push(short[k as int]));
            }
            self.data.push(vals[k].1);
            k = k + 1;
        }
        proof {
            assert(vals@.map_values(|p: (String, i64)| p.1).take(nb as int) =~= vals@.map_values(
                |p: (String, i64)| p.1,
            ));
        }

        if self.ticks_seen < u64::MAX {
            self.ticks_seen = self.ticks_seen + 1;
        }
        let ghost ts2 = self.ticks_seen;

        // trim the front so at most SAMPLE_COUNT ticks stay
        proof {
            assert(nb * SAMPLE_COUNT <= MAX_INSTANCES * SAMPLE_COUNT) by (nonlinear_arith)
                requires
                    nb <= MAX_INSTANCES,
            ;
        }
        let cap: usize = nb * SAMPLE_COUNT;
        let ghost full = self.data@;
        if self.data.len() > cap {
            let mut r: usize = 0;
            while r < nb
                invariant
                    0 <= r <= nb,
                    self.data@ == full.skip(r as int),
                    full.len() > nb * SAMPLE_COUNT >= nb,
                    self.path == mid.path,
                    self.nb_instance == mid.nb_instance,
                    self.instance_names == mid.instance_names,
                    self.instance_colors == mid.instance_colors,
                    self.ticks_seen == ts2,
                    self.max == mid.max,
                    self.avg == mid.avg,
                    self.curves == mid.curves,
                decreases nb - r,
            {
                proof {
                    assert(full.skip(r as int).remove(0) =~= full.skip(r as int + 1));
                }
                self.data.remove(0);
                r = r + 1;
            }
        }

        let ghost kept = vstd::math::min(self.ticks_seen as int, SAMPLE_COUNT as int);
        proof {
            if mid.nb_instance != pre.nb_instance {
                // fresh buffer: exactly the one appended tick
                assert(self.data@.len() == nb);
                assert(nb * 1 == nb) by (nonlinear_arith);
                assert(self.data@.len() == nb * kept);
            } else {
                let kp = pre.kept_ticks() as int;
                assert(full.len() == nb * kp + nb);
                assert(nb * kp + nb == nb * (kp + 1)) by (nonlinear_arith);
                if kp == SAMPLE_COUNT {
                    assert(nb * (kp + 1) > nb * SAMPLE_COUNT) by (nonlinear_arith)
                        requires
                            nb >= 1,
                            kp == SAMPLE_COUNT,
                    ;
                    assert(self.data@.len() == nb * (kp + 1) - nb);
                    assert(nb * (kp + 1) - nb == nb * kp) by (nonlinear_arith);
                    assert(kept == SAMPLE_COUNT);
                    assert(self.data@.len() == nb * kept);
                } else {
                    assert(nb * (kp + 1) <= nb * SAMPLE_COUNT) by (nonlinear_arith)
                        requires
                            nb >= 0,
                            kp + 1 <= SAMPLE_COUNT,
                    ;
                    assert(self.data@.len() == nb * (kp + 1));
                    assert(kept == kp + 1);
                    assert(self.data@.len() == nb * kept);
                }
            }
            assert(1 <= kept <= SAMPLE_COUNT);
            assert((self.data@.len() as int) / (nb as int) == kept) by {
                vstd::arithmetic::div_mod::lemma_div_by_multiple(kept, nb as int);
                assert(nb * kept == kept * nb) by (nonlinear_arith);
            }
        }
        let ghost dropn: int = if full.len() > nb * SAMPLE_COUNT {
            nb as int
        } else {
            0
        };
        proof {
            let short = vals@.map_values(|p: (String, i64)| p.1);
            assert(self.data@ =~= full.skip(dropn));
            assert(full == mid.data@ + short);
            assert forall|q: int|
                0 <= q < seq_int(self.data@).len() implies -(MAX_SAMPLE as int) <= #[trigger] seq_int(
                self.data@,
            )[q] <= MAX_SAMPLE as int by {
                assert(seq_int(self.data@)[q] == self.data@[q] as int);
                assert(self.data@[q] == full[q + dropn]);
                if q + dropn < mid.data@.len() {
                    assert(seq_int(mid.data@)[q + dropn] == mid.data@[q + dropn] as int);
                } else {
                    assert(full[q + dropn] == short[q + dropn - mid.data@.len()]);
                    assert(short[q + dropn - mid.data@.len()] == vals@[q + dropn
                        - mid.data@.len()].1);
                }
            }
            assert(all_bounded(seq_int(self.data@), MAX_SAMPLE as int));
        }

        let ticks: usize = self.data.len() / nb;

        // refit every instance curve from the whole buffer
        self.curves = Vec::new();
        if ticks >= 2 {
            let ghost s = seq_int(self.data@);
            let mut i: usize = 0;
            while i < nb
                invariant
                    0 <= i <= nb,
                    1 <= nb <= MAX_INSTANCES,
                    2 <= ticks <= SAMPLE_COUNT,
                    self.data.len() == nb * ticks,
                    s == seq_int(self.data@),
                    all_bounded(s, MAX_SAMPLE as int),
                    self.curves.len() == i,
                    forall|q: int|
                        0 <= q < i ==> (#[trigger] self.curves@[q]).wf() && self.curves@[q].samples()
                            == column(s, nb as nat, ticks as nat, q as nat)
                            && self.curves@[q].segments() + 1 == ticks,
                    self.path == mid.path,
                    self.nb_instance == mid.nb_instance,
                    self.instance_names == mid.instance_names,
                    self.instance_colors == mid.instance_colors,
                    self.ticks_seen == ts2,
                    self.max == mid.max,
                    self.avg == mid.avg,
                decreases nb - i,
            {
                let mut col: Vec<i64> = Vec::new();
                let mut t: usize = 0;
                while t < ticks
                    invariant
                        0 <= t <= ticks,
                        i < nb,
                        1 <= nb,
                        ticks <= SAMPLE_COUNT,
                        self.data.len() == nb * ticks,
                        s == seq_int(self.data@),
                        all_bounded(s, MAX_SAMPLE as int),
                        col.len() == t,
                        forall|q: int|
                            0 <= q < t ==> #[trigger] col@[q] as int == s[q * nb + i]
                                && -MAX_SAMPLE <= col@[q] <= MAX_SAMPLE,
                    decreases ticks - t,
                {
                    proof {
                        assert(t * nb + i < ticks * nb && 0 <= t * nb + i) by (nonlinear_arith)
                            requires
                                0 <= t < ticks,
                                0 <= i < nb,
                        ;
                        assert(ticks * nb == nb * ticks) by (nonlinear_arith);
                        assert(s[t * nb + i] == self.data@[t * nb + i] as int);
                    }
                    col.push(self.data[t * nb + i]);
                    t = t + 1;
                }
                proof {
                    assert forall|q: int|
                        0 <= q < seq_int(col@).len() implies -(MAX_SAMPLE as int)
                            <= #[trigger] seq_int(col@)[q] <= MAX_SAMPLE as int by {
                        assert(seq_int(col@)[q] == col@[q] as int);
                    }
                    assert(seq_int(col@) =~= column(s, nb as nat, ticks as nat, i as nat));
                    assert(all_bounded(seq_int(col@), MAX_SAMPLE as int));
                }
                let curve = InterpolatedCurve::new(col);
                self.curves.push(curve);
                i = i + 1;
            }
        }

        // shift the range history and recompute its current slot
        let (mx, av): (i64, i64) = compute_range(&self.data, nb, ticks);
        self.max = [self.max[1], mx];
        self.avg = [self.avg[1], av];

        proof {
            let vv = vals@;
            let short = vv.map_values(|p: (String, i64)| p.1);
            let reset = (nb as nat) != pre.instance_count();
            assert(self.kept_ticks() == ticks as nat);
            assert(self.data@.len() == nb * ticks);
            assert(self.instance_count() * self.kept_ticks() == nb * ticks) by (nonlinear_arith)
                requires
                    self.instance_count() == nb as nat,
                    self.kept_ticks() == ticks as nat,
            ;
            if reset {
                assert(mid.data@.len() == 0);
                assert(full.len() == nb);
                assert(dropn == 0);
                assert(seq_int(self.data@) =~= view_tick(vv));
                assert(self.instance_names@.map_values(|x: String| x@) =~= view_names(vv));
            } else {
                assert(mid == pre);
                assert(seq_int(self.data@) =~= (seq_int(pre.data@) + view_tick(vv)).skip(dropn));
                if pre.kept_ticks() == SAMPLE_COUNT as nat {
                    assert(full.len() == nb * SAMPLE_COUNT + nb);
                    assert(nb * SAMPLE_COUNT + nb > nb * SAMPLE_COUNT);
                    assert(dropn == nb as int);
                } else {
                    assert(full.len() == nb * (pre.kept_ticks() as int + 1));
                    assert(nb * (pre.kept_ticks() as int + 1) <= nb * SAMPLE_COUNT)
                        by (nonlinear_arith)
                        requires
                            nb >= 0,
                            pre.kept_ticks() as int + 1 <= SAMPLE_COUNT,
                    ;
                    assert(dropn == 0);
                }
            }
        }
    }
}

/// One tick is acceptable when its values are bounded fixed-point
/// scalars and its instance count fits the metric limits.
pub open spec fn tick_view_ok(tick: Option<Vec<(String, i64)>>) -> bool {
    match tick {
        Some(vals) => vals.len() <= MAX_INSTANCES && forall|k: int|
            0 <= k < vals@.len() ==> -MAX_SAMPLE <= (#[trigger] vals@[k]).1 <= MAX_SAMPLE,
        None => true,
    }
}

/// The ordered collection of tracked metrics. Each metric keeps the
/// stable id it was assigned when added; ids grow strictly in add order
/// and are never reused.
pub struct QueryV2 {
    counters: Vec<(u64, CounterV2)>,
    last_id: u64,
}

impl QueryV2 {
    /// The `(id, metric)` entries, in add order.
    pub closed spec fn entries(&self) -> Seq<(u64, CounterV2)> {
        self.counters@
    }

    /// The tracked metrics, in add order.
    pub open spec fn counters_spec(&self) -> Seq<CounterV2> {
        self.entries().map_values(|e: (u64, CounterV2)| e.1)
    }

    /// The tracked paths, in add order: what the collaborator persists.
    pub open spec fn paths_spec(&self) -> Seq<Seq<char>> {
        self.counters_spec().map_values(|c: CounterV2| c.path_spec())
    }

    /// The last id handed out.
    pub closed spec fn last_id_spec(&self) -> nat {
        self.last_id as nat
    }

    /// Every metric is well-formed and ids grow strictly in add order,
    /// never beyond the last one handed out.
    pub closed spec fn wf(&self) -> bool {
        &&& forall|i: int| 0 <= i < self.counters@.len() ==> (#[trigger] self.counters@[i]).1.wf()
        &&& forall|i: int, j: int|
            #![trigger self.counters@[i].0, self.counters@[j].0]
            0 <= i < j < self.counters@.len() ==> self.counters@[i].0 < self.counters@[j].0
        &&& forall|i: int|
            0 <= i < self.counters@.len() ==> 1 <= (#[trigger] self.counters@[i]).0
                <= self.last_id
    }

    /// An empty query tracking no metrics.
    pub fn new() -> (r: QueryV2)
        ensures
            r.wf(),
            r.entries().len() == 0,
            r.last_id_spec() == 0,
    {
        QueryV2 { counters: Vec::new(), last_id: 0 }
    }

    /// How many metrics are tracked.
    pub fn counter_count(&self) -> (r: usize)
        ensures
            r == self.entries().len(),
    {
        self.counters.len()
    }

    /// The metric at position `i` in add order.
    pub fn counter_at(&self, i: usize) -> (r: &CounterV2)
        requires
            self.wf(),
            i < self.entries().len(),
        ensures
            *r == self.counters_spec()[i as int],
            r.wf(),
    {
        &self.counters[i].1
    }

    /// The stable id of the metric at position `i`.
    pub fn counter_id_at(&self, i: usize) -> (r: u64)
        requires
            i < self.entries().len(),
        ensures
            r == self.entries()[i as int].0,
    {
        self.counters[i].0
    }

    /// The last id handed out; the next metric gets the one after it.
    pub fn last_counter_id(&self) -> (r: u64)
        ensures
            r as nat == self.last_id_spec(),
    {
        self.last_id
    }

    /// Tracks one more metric under a fresh id; its position is last in
    /// add order.
    pub fn add_counter(&mut self, path: String)
        requires
            old(self).wf(),
            old(self).last_id_spec() < u64::MAX,
        ensures
            final(self).wf(),
            final(self).last_id_spec() == old(self).last_id_spec() + 1,
            final(self).entries().len() == old(self).entries().len() + 1,
            final(self).entries().take(old(self).entries().len() as int) == old(self).entries(),
            final(self).entries().last().0 == final(self).last_id_spec(),
            final(self).entries().last().1.wf(),
            final(self).entries().last().1.path_spec() == path@,
            final(self).entries().last().1.instance_count() == 0,
            final(self).entries().last().1.ticks() == 0,
            final(self).paths_spec() == old(self).paths_spec().push(path@),
    {
        let id: u64 = self.last_id + 1;
        let counter = CounterV2::new(path);
        self.counters.push((id, counter));
        self.last_id = id;
        proof {
            assert(self.counters@.take(self.counters@.len() - 1) =~= old(self).counters@);
            assert(self.paths_spec() =~= old(self).paths_spec().push(
                self.counters@.last().1.path_spec(),
            ));
        }
    }

    /// Tracks every path of a persisted list, in list order: reading the
    /// paths back afterwards yields exactly the old list followed by the
    /// loaded one.
    pub fn add_saved_counters(&mut self, paths: Vec<String>)
        requires
            old(self).wf(),
            old(self).last_id_spec() + paths@.len() <= u64::MAX,
        ensures
            final(self).wf(),
            final(self).paths_spec() == old(self).paths_spec() + paths@.map_values(
                |s: String| s@,
            ),
            final(self).entries().len() == old(self).entries().len() + paths@.len(),
    {
        let ghost all = paths@;
        let mut k: usize = 0;
        while k < paths.len()
            invariant
                0 <= k <= paths@.len(),
                all == paths@,
                self.wf(),
                self.last_id_spec() + (all.len() - k) <= u64::MAX,
                self.paths_spec() == old(self).paths_spec() + all.take(k as int).map_values(
                    |s: String| s@,
                ),
                self.entries().len() == old(self).entries().len() + k,
            decreases paths@.len() - k,
        {
            let p: String = paths[k].clone();
            proof {
                assert(all.take(k as int + 1).map_values(|s: String| s@) =~= all.take(
                    k as int,
                ).map_values(|s: String| s@).push(all[k as int]@));
            }
            self.add_counter(p);
            k = k + 1;
        }
        proof {
            assert(all.take(k as int) =~= all);
        }
    }

    /// Stops tracking the metric with the given id. The caller names an
    /// id that is present; every other metric keeps its position order.
    pub fn remove_counter(&mut self, id: u64)
        requires
            old(self).wf(),
            exists|i: int|
                0 <= i < old(self).entries().len() && (#[trigger] old(self).entries()[i]).0 == id,
        ensures
            final(self).wf(),
            final(self).last_id_spec() == old(self).last_id_spec(),
            exists|i: int|
                0 <= i < old(self).entries().len() && (#[trigger] old(self).entries()[i]).0 == id
                    && final(self).entries() == old(self).entries().remove(i),
    {
        let mut i: usize = 0;
        while i < self.counters.len() && self.counters[i].0 != id
            invariant
                0 <= i <= self.counters@.len(),
                forall|k: int| 0 <= k < i ==> (#[trigger] self.counters@[k]).0 != id,
                self == old(self),
            decreases self.counters@.len() - i,
        {
            i = i + 1;
        }
        proof {
            let w = choose|w: int|
                0 <= w < self.counters@.len() && (#[trigger] self.counters@[w]).0 == id;
            assert(i < self.counters@.len());
        }
        self.counters.remove(i);
    }

    /// Stops tracking every metric. Ids already handed out stay used up.
    pub fn remove_all_counter(&mut self)
        requires
            old(self).wf(),
        ensures
            final(self).wf(),
            final(self).entries().len() == 0,
            final(self).last_id_spec() == old(self).last_id_spec(),
    {
        self.counters.clear();
    }

    /// Ingests one resample round: tick `i` of the list goes to the
    /// metric at position `i`. Ids and positions are unchanged; each
    /// metric changes exactly as one `CounterV2` ingest does.
    pub fn update(&mut self, ticks: Vec<Option<Vec<(String, i64)>>>)
        requires
            old(self).wf(),
            ticks@.len() == old(self).entries().len(),
            forall|i: int| 0 <= i < ticks@.len() ==> tick_view_ok(#[trigger] ticks@[i]),
        ensures
            final(self).wf(),
            final(self).last_id_spec() == old(self).last_id_spec(),
            final(self).entries().len() == old(self).entries().len(),
            forall|i: int|
                0 <= i < final(self).entries().len() ==> (#[trigger] final(self).entries()[i]).0
                    == old(self).entries()[i].0,
            forall|i: int|
                0 <= i < final(self).entries().len() ==> CounterV2::update_post(
                    old(self).entries()[i].1,
                    (#[trigger] final(self).entries()[i]).1,
                    match ticks@[i] {
                        Some(vals) => Some(vals@),
                        None => None,
                    },
                ),
    {
        let ghost all = ticks@;
        let mut rest: Vec<Option<Vec<(String, i64)>>> = ticks;
        let mut i: usize = 0;
        while i < self.counters.len()
            invariant
                0 <= i <= self.counters@.len(),
                rest@ == all.skip(i as int),
                all.len() == self.counters@.len(),
                self.last_id == old(self).last_id,
                forall|k: int| 0 <= k < all.len() ==> tick_view_ok(#[trigger] all[k]),
                forall|k: int| 0 <= k < self.counters@.len() ==> (#[trigger] self.counters@[k]).0
                    == old(self).counters@[k].0,
                forall|k: int|
                    i <= k < self.counters@.len() ==> (#[trigger] self.counters@[k]).1
                        == old(self).counters@[k].1,
                forall|k: int| 0 <= k < self.counters@.len() ==> (#[trigger] self.counters@[k]).1.wf(),
                forall|k: int|
                    0 <= k < i ==> CounterV2::update_post(
                        old(self).counters@[k].1,
                        (#[trigger] self.counters@[k]).1,
                        match all[k] {
                            Some(vals) => Some(vals@),
                            None => None,
                        },
                    ),
            decreases self.counters@.len() - i,
        {
            proof {
                assert(all.skip(i as int).len() > 0);
            }
            let tk: Option<Vec<(String, i64)>> = rest.remove(0);
            proof {
                assert(all.skip(i as int).remove(0) =~= all.skip(i as int + 1));
                assert(all[i as int] == tk);
            }
            let entry: &mut (u64, CounterV2) = vstd::std_specs::vec::vec_index_mut(
                &mut self.counters,
                i,
            );
            entry.1.update(tk);
            i = i + 1;
        }
        proof {
            assert(forall|i: int, j: int|
                #![trigger self.counters@[i].0, self.counters@[j].0]
                0 <= i < j < self.counters@.len() ==> self.counters@[i].0 < self.counters@[j].0);
        }
    }

    /// The tracked paths, cloned in add order: the ordered list the
    /// collaborator persists at shutdown.
    pub fn counter_paths(&self) -> (r: Vec<String>)
        requires
            self.wf(),
        ensures
            r@.map_values(|s: String| s@) == self.paths_spec(),
    {
        let mut out: Vec<String> = Vec::new();
        let mut i: usize = 0;
        while i < self.counters.len()
            invariant
                0 <= i <= self.counters@.len(),
                self.wf(),
                out@.len() == i,
                forall|k: int| 0 <= k < i ==> (#[trigger] out@[k])@ == self.paths_spec()[k],
            decreases self.counters@.len() - i,
        {
            out.push(self.counters[i].1.path().clone());
            i = i + 1;
        }
        proof {
            assert(out@.map_values(|s: String| s@) =~= self.paths_spec());
        }
        out
    }
}

} // verus!
