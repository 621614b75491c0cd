//! The smoothing engine: turns raw-sensor readings, already taken into the
//! logarithmic domain, into a stable ambient-brightness percentage.
//!
//! The sensor's raw reading spans several decades, so the runtime layer hands
//! this module the base-ten logarithm of each reading as a fixed-point
//! integer: one decade is [`LOG_SCALE`] units. The engine clamps each sample
//! at the logarithm of [`MAX_READING`], keeps the last up to [`WINDOW_SIZE`]
//! samples, and maps their arithmetic mean onto a percentage of
//! [`MAX_EXPONENT`] decades. While idle mode is on, the percentage is
//! quartered before rounding.

use vstd::prelude::*;

verus! {

/// Fixed-point scale of a sample: one decade of raw intensity is this many
/// units.
pub const LOG_SCALE: u32 = 100_000;

/// Ceiling on the raw sensor reading; larger readings are treated as this
/// bright.
pub const MAX_READING: u32 = 2_500_000;

/// The base-ten logarithm of [`MAX_READING`] in [`LOG_SCALE`] units; every
/// sample is clamped here.
pub const LOG_CEILING: u32 = 639_794;

/// Whole decades below [`MAX_READING`]: the percentage scale maps this many
/// decades onto the full zero to one hundred range.
pub const MAX_EXPONENT: u32 = 6;

/// How many of the most recent samples the moving average spans.
pub const WINDOW_SIZE: usize = 10;

/// A sample clamped at [`LOG_CEILING`].
pub open spec fn clamp_sample(v: u32) -> u32 {
    if v > LOG_CEILING {
        LOG_CEILING
    } else {
        v
    }
}

/// The sum of the samples in a window.
pub open spec fn sum_window(w: Seq<u32>) -> int
    decreases w.len(),
{
    if w.len() == 0 {
        0
    } else {
        sum_window(w.drop_last()) + w.last()
    }
}

/// The window after one update: the new sample is clamped and appended, and
/// the oldest sample is dropped once the window is full.
pub open spec fn step_window(w: Seq<u32>, v: u32) -> Seq<u32> {
    if w.len() >= WINDOW_SIZE {
        w.subrange(1, w.len() as int).push(clamp_sample(v))
    } else {
        w.push(clamp_sample(v))
    }
}

/// Division rounded to the nearest integer, halves away from zero, for
/// non-negative operands.
pub open spec fn round_div(num: int, den: int) -> int
    recommends
        den > 0,
{
    (2 * num + den) / (2 * den)
}

/// The denominator that turns a window sum, times one hundred, into a
/// percentage: the window length times the full scale, quadrupled while
/// idle so the percentage is quartered before rounding.
pub open spec fn percent_denominator(len: int, idle: bool) -> int {
    (if idle {
        4int
    } else {
        1int
    }) * len * (MAX_EXPONENT * LOG_SCALE)
}

/// Values above one hundred are reported as one hundred.
pub open spec fn clamp_percent(p: int) -> int {
    if p > 100 {
        100
    } else {
        p
    }
}

/// The percentage a window yields: the mean of its samples as a share of
/// [`MAX_EXPONENT`] decades, quartered while idle, rounded to the nearest
/// integer and capped at one hundred.
pub open spec fn window_percent(w: Seq<u32>, idle: bool) -> int {
    clamp_percent(round_div(100 * sum_window(w), percent_denominator(w.len() as int, idle)))
}

/// The smoothing engine: a moving-average window over clamped log-domain
/// samples, plus the transient idle flag.
pub struct AmbientBrightness {
    window: Vec<u32>,
    idle: bool,
}

impl AmbientBrightness {
    /// The samples currently in the window, oldest first.
    pub closed spec fn samples(&self) -> Seq<u32> {
        self.window@
    }

    /// Whether idle mode is on.
    pub closed spec fn is_idle(&self) -> bool {
        self.idle
    }

    /// The window never overfills and holds only clamped samples.
    pub open spec fn wf(&self) -> bool {
        &&& self.samples().len() <= WINDOW_SIZE
        &&& forall|i: int| 0 <= i < self.samples().len() ==> self.samples()[i] <= LOG_CEILING
    }

    /// Whether the engine has been seeded with a first sample.
    pub open spec fn initialized(&self) -> bool {
        self.samples().len() >= 1
    }

    /// A fresh engine: no samples yet, idle mode off.
    pub fn new() -> (r: Self)
        ensures
            r.samples() == Seq::<u32>::empty(),
            !r.is_idle(),
            r.wf(),
    {
        let r = AmbientBrightness { window: Vec::new(), idle: false };
        proof {
            assert(r.samples() =~= Seq::<u32>::empty());
        }
        r
    }

    /// Seed the window with the first sample, clamped like every later one.
    pub fn init(self, initial: u32) -> (r: Self)
        ensures
            r.samples() == seq![clamp_sample(initial)],
            r.is_idle() == self.is_idle(),
            r.wf(),
            r.initialized(),
    {
        let mut window: Vec<u32> = Vec::new();
        window.push(clamp_to_ceiling(initial));
        let r = AmbientBrightness { window, idle: self.idle };
        proof {
            assert(r.samples() =~= seq![clamp_sample(initial)]);
        }
        r
    }

    /// Take one sample and return the smoothed ambient percentage: the
    /// sample is clamped and enters the window, and the window's mean is
    /// mapped onto the percentage scale, quartered while idle, rounded to
    /// the nearest integer, capped at one hundred.
    pub fn update(&mut self, sample: u32) -> (pct: u32)
        requires
            old(self).wf(),
            old(self).initialized(),
        ensures
            final(self).wf(),
            final(self).initialized(),
            final(self).is_idle() == old(self).is_idle(),
            final(self).samples() == step_window(old(self).samples(), sample),
            pct == window_percent(final(self).samples(), final(self).is_idle()),
            pct <= 100,
    {
        if self.window.len() >= WINDOW_SIZE {
            self.window.remove(0);
        }
        self.window.push(clamp_to_ceiling(sample));
        proof {
            assert(self.samples() =~= step_window(old(self).samples(), sample));
        }

        let ghost w = self.samples();
        let mut sum: u64 = 0;
        let mut i: usize = 0;
        while i < self.window.len()
            invariant
                self.samples() == w,
                self.wf(),
                i <= self.window.len(),
                sum == sum_window(w.subrange(0, i as int)),
            decreases self.window.len() - i,
        {
            proof {
                assert(forall|j: int|
                    0 <= j < i ==> w.subrange(0, i as int)[j] <= LOG_CEILING);
                lemma_sum_window_bound(w.subrange(0, i as int));
                assert(w.subrange(0, (i + 1) as int).drop_last() =~= w.subrange(0, i as int));
            }
            sum = sum + self.window[i] as u64;
            i = i + 1;
        }
        proof {
            assert(w.subrange(0, w.len() as int) =~= w);
            lemma_sum_window_bound(w);
        }

        let len: u64 = self.window.len() as u64;
        let num: u64 = 100 * sum;
        let unit: u64 = 600_000;
        proof {
            assert(unit == MAX_EXPONENT * LOG_SCALE);
        }
        let den: u64 = if self.idle {
            4 * len * unit
        } else {
            len * unit
        };
        let p: u64 = (2 * num + den) / (2 * den);
        if p > 100 {
            100
        } else {
            p as u32
        }
    }

    /// Turn idle mode on: later percentages are quartered.
    pub fn idle(&mut self)
        ensures
            final(self).is_idle(),
            final(self).samples() == old(self).samples(),
    {
        self.idle = true;
    }

    /// Turn idle mode off.
    pub fn active(&mut self)
        ensures
            !final(self).is_idle(),
            final(self).samples() == old(self).samples(),
    {
        self.idle = false;
    }
}

/// The window after the engine is seeded with `v0` and then fed the
/// constant sample `c` for `k` passes.
pub open spec fn windows_after(v0: u32, c: u32, k: nat) -> Seq<u32>
    decreases k,
{
    if k == 0 {
        seq![clamp_sample(v0)]
    } else {
        step_window(windows_after(v0, c, (k - 1) as nat), c)
    }
}

/// Under a constant input the window is the seed followed by copies of the
/// input until the seed falls out, and all copies from then on.
proof fn lemma_window_shape(v0: u32, c: u32, k: nat)
    ensures
        k < WINDOW_SIZE ==> windows_after(v0, c, k) =~= seq![clamp_sample(v0)] + Seq::new(
            k,
            |i: int| clamp_sample(c),
        ),
        k >= WINDOW_SIZE ==> windows_after(v0, c, k) =~= Seq::new(
            WINDOW_SIZE as nat,
            |i: int| clamp_sample(c),
        ),
    decreases k,
{
    if k > 0 {
        lemma_window_shape(v0, c, (k - 1) as nat);
    }
}

/// The sum of a window of identical samples.
proof fn lemma_sum_repeated(value: u32, k: nat)
    ensures
        sum_window(Seq::new(k, |i: int| value)) == k * value,
    decreases k,
{
    if k == 0 {
    } else {
        assert(Seq::new(k, |i: int| value).drop_last() =~= Seq::new(
            (k - 1) as nat,
            |i: int| value,
        ));
        lemma_sum_repeated(value, (k - 1) as nat);
        assert((k - 1) * value + value == k * value) by (nonlinear_arith);
    }
}

/// The sum of a seed followed by identical samples.
proof fn lemma_sum_seeded(seed: u32, value: u32, k: nat)
    ensures
        sum_window(seq![seed] + Seq::new(k, |i: int| value)) == seed + k * value,
    decreases k,
{
    let s = seq![seed] + Seq::new(k, |i: int| value);
    if k == 0 {
        assert(s =~= seq![seed]);
        assert(seq![seed].drop_last() =~= Seq::<u32>::empty());
        assert(sum_window(Seq::<u32>::empty()) == 0);
        assert(sum_window(seq![seed]) == seed);
    } else {
        let prev = seq![seed] + Seq::new((k - 1) as nat, |i: int| value);
        assert(s.drop_last() =~= prev);
        assert(s.last() == value);
        lemma_sum_seeded(seed, value, (k - 1) as nat);
        assert(sum_window(s) == sum_window(prev) + value);
        assert(seed + (k - 1) * value + value == seed + k * value) by (nonlinear_arith);
    }
}

/// Rounding to the nearest integer respects the order of the fractions
/// rounded: cross-multiplied, `n1 / d1 <= n2 / d2` carries over.
proof fn lemma_round_div_le(n1: int, d1: int, n2: int, d2: int)
    requires
        d1 > 0,
        d2 > 0,
        0 <= n1,
        n1 * d2 <= n2 * d1,
    ensures
        round_div(n1, d1) <= round_div(n2, d2),
{
    let a = 2 * n1 + d1;
    let b = 2 * d1;
    let c = 2 * n2 + d2;
    let e = 2 * d2;
    assert(a * e <= c * b) by (nonlinear_arith)
        requires
            n1 * d2 <= n2 * d1,
            d1 > 0,
            d2 > 0,
            a == 2 * n1 + d1,
            b == 2 * d1,
            c == 2 * n2 + d2,
            e == 2 * d2,
    ;
    let q = a / b;
    vstd::arithmetic::div_mod::lemma_fundamental_div_mod(a, b);
    vstd::arithmetic::div_mod::lemma_mod_bound(a, b);
    assert(q * b <= a);
    assert(q * e <= c) by (nonlinear_arith)
        requires
            q * b <= a,
            a * e <= c * b,
            b > 0,
            e > 0,
    ;
    vstd::arithmetic::div_mod::lemma_div_is_ordered(q * e, c, e);
    vstd::arithmetic::div_mod::lemma_div_multiples_vanish(q, e);
    assert(q * e == e * q);
}

/// While the constant input reads at least as bright as the seed, the
/// output percentage never falls between any two of the first ten passes.
proof fn lemma_percent_mono_up(v0: u32, c: u32, idle: bool, j: nat, k: nat)
    requires
        j <= k,
        k <= WINDOW_SIZE,
        clamp_sample(v0) <= clamp_sample(c),
    ensures
        window_percent(windows_after(v0, c, j), idle) <= window_percent(
            windows_after(v0, c, k),
            idle,
        ),
{
    let cv0 = clamp_sample(v0) as int;
    let cc = clamp_sample(c) as int;
    let unit = (MAX_EXPONENT * LOG_SCALE) as int;
    let f: int = if idle {
        4
    } else {
        1
    };
    lemma_window_shape(v0, c, j);
    lemma_window_shape(v0, c, k);
    let wj = windows_after(v0, c, j);
    let wk = windows_after(v0, c, k);

    if j < WINDOW_SIZE {
        lemma_sum_seeded(clamp_sample(v0), clamp_sample(c), j);
        assert(sum_window(wj) == cv0 + j * cc);
        assert(wj.len() == j + 1);
    } else {
        lemma_sum_repeated(clamp_sample(c), WINDOW_SIZE as nat);
        assert(sum_window(wj) == WINDOW_SIZE * cc);
        assert(wj.len() == WINDOW_SIZE);
    }
    if k < WINDOW_SIZE {
        lemma_sum_seeded(clamp_sample(v0), clamp_sample(c), k);
        assert(sum_window(wk) == cv0 + k * cc);
        assert(wk.len() == k + 1);
    } else {
        lemma_sum_repeated(clamp_sample(c), WINDOW_SIZE as nat);
        assert(sum_window(wk) == WINDOW_SIZE * cc);
        assert(wk.len() == WINDOW_SIZE);
    }

    let nj = 100 * sum_window(wj);
    let dj = percent_denominator(wj.len() as int, idle);
    let nk = 100 * sum_window(wk);
    let dk = percent_denominator(wk.len() as int, idle);
    assert(dj == f * (wj.len() as int) * unit);
    assert(dk == f * (wk.len() as int) * unit);
    assert(dj > 0) by (nonlinear_arith)
        requires
            dj == f * (wj.len() as int) * unit,
            f >= 1,
            wj.len() >= 1,
            unit == 600_000,
    ;
    assert(dk > 0) by (nonlinear_arith)
        requires
            dk == f * (wk.len() as int) * unit,
            f >= 1,
            wk.len() >= 1,
            unit == 600_000,
    ;
    assert(nj >= 0) by (nonlinear_arith)
        requires
            nj == 100 * sum_window(wj),
            sum_window(wj) == cv0 + j * cc || sum_window(wj) == WINDOW_SIZE * cc,
            cv0 >= 0,
            cc >= 0,
            j >= 0,
    ;

    if j < WINDOW_SIZE && k < WINDOW_SIZE {
        assert((cv0 + j * cc) * (k + 1) <= (cv0 + k * cc) * (j + 1)) by (nonlinear_arith)
            requires
                cv0 <= cc,
                j <= k,
                0 <= j,
                0 <= cv0,
        ;
        assert(nj * dk <= nk * dj) by (nonlinear_arith)
            requires
                (cv0 + j * cc) * (k + 1) <= (cv0 + k * cc) * (j + 1),
                nj == 100 * (cv0 + j * cc),
                nk == 100 * (cv0 + k * cc),
                dj == f * ((j + 1) as int) * unit,
                dk == f * ((k + 1) as int) * unit,
                f > 0,
                unit > 0,
        ;
    } else if j < WINDOW_SIZE {
        assert((cv0 + j * cc) * WINDOW_SIZE <= (WINDOW_SIZE * cc) * (j + 1)) by (nonlinear_arith)
            requires
                cv0 <= cc,
                0 <= j,
                WINDOW_SIZE == 10,
        ;
        assert(nj * dk <= nk * dj) by (nonlinear_arith)
            requires
                (cv0 + j * cc) * WINDOW_SIZE <= (WINDOW_SIZE * cc) * (j + 1),
                nj == 100 * (cv0 + j * cc),
                nk == 100 * (WINDOW_SIZE * cc),
                dj == f * ((j + 1) as int) * unit,
                dk == f * (WINDOW_SIZE as int) * unit,
                f > 0,
                unit > 0,
        ;
    } else {
        assert(nj == nk && dj == dk);
    }
    lemma_round_div_le(nj, dj, nk, dk);
}

/// While the constant input reads at most as bright as the seed, the
/// output percentage never rises between any two of the first ten passes.
proof fn lemma_percent_mono_down(v0: u32, c: u32, idle: bool, j: nat, k: nat)
    requires
        j <= k,
        k <= WINDOW_SIZE,
        clamp_sample(c) <= clamp_sample(v0),
    ensures
        window_percent(windows_after(v0, c, k), idle) <= window_percent(
            windows_after(v0, c, j),
            idle,
        ),
{
    let cv0 = clamp_sample(v0) as int;
    let cc = clamp_sample(c) as int;
    let unit = (MAX_EXPONENT * LOG_SCALE) as int;
    let f: int = if idle {
        4
    } else {
        1
    };
    lemma_window_shape(v0, c, j);
    lemma_window_shape(v0, c, k);
    let wj = windows_after(v0, c, j);
    let wk = windows_after(v0, c, k);

    if j < WINDOW_SIZE {
        lemma_sum_seeded(clamp_sample(v0), clamp_sample(c), j);
        assert(sum_window(wj) == cv0 + j * cc);
        assert(wj.len() == j + 1);
    } else {
        lemma_sum_repeated(clamp_sample(c), WINDOW_SIZE as nat);
        assert(sum_window(wj) == WINDOW_SIZE * cc);
        assert(wj.len() == WINDOW_SIZE);
    }
    if k < WINDOW_SIZE {
        lemma_sum_seeded(clamp_sample(v0), clamp_sample(c), k);
        assert(sum_window(wk) == cv0 + k * cc);
        assert(wk.len() == k + 1);
    } else {
        lemma_sum_repeated(clamp_sample(c), WINDOW_SIZE as nat);
        assert(sum_window(wk) == WINDOW_SIZE * cc);
        assert(wk.len() == WINDOW_SIZE);
    }

    let nj = 100 * sum_window(wj);
    let dj = percent_denominator(wj.len() as int, idle);
    let nk = 100 * sum_window(wk);
    let dk = percent_denominator(wk.len() as int, idle);
    assert(dj == f * (wj.len() as int) * unit);
    assert(dk == f * (wk.len() as int) * unit);
    assert(dj > 0) by (nonlinear_arith)
        requires
            dj == f * (wj.len() as int) * unit,
            f >= 1,
            wj.len() >= 1,
            unit == 600_000,
    ;
    assert(dk > 0) by (nonlinear_arith)
        requires
            dk == f * (wk.len() as int) * unit,
            f >= 1,
            wk.len() >= 1,
            unit == 600_000,
    ;
    assert(nk >= 0) by (nonlinear_arith)
        requires
            nk == 100 * sum_window(wk),
            sum_window(wk) == cv0 + k * cc || sum_window(wk) == WINDOW_SIZE * cc,
            cv0 >= 0,
            cc >= 0,
            k >= 0,
    ;

    if j < WINDOW_SIZE && k < WINDOW_SIZE {
        assert((cv0 + k * cc) * (j + 1) <= (cv0 + j * cc) * (k + 1)) by (nonlinear_arith)
            requires
                cc <= cv0,
                j <= k,
                0 <= j,
                0 <= cc,
        ;
        assert(nk * dj <= nj * dk) by (nonlinear_arith)
            requires
                (cv0 + k * cc) * (j + 1) <= (cv0 + j * cc) * (k + 1),
                nj == 100 * (cv0 + j * cc),
                nk == 100 * (cv0 + k * cc),
                dj == f * ((j + 1) as int) * unit,
                dk == f * ((k + 1) as int) * unit,
                f > 0,
                unit > 0,
        ;
    } else if j < WINDOW_SIZE {
        assert((WINDOW_SIZE * cc) * (j + 1) <= (cv0 + j * cc) * WINDOW_SIZE) by (nonlinear_arith)
            requires
                cc <= cv0,
                0 <= j,
                WINDOW_SIZE == 10,
        ;
        assert(nk * dj <= nj * dk) by (nonlinear_arith)
            requires
                (WINDOW_SIZE * cc) * (j + 1) <= (cv0 + j * cc) * WINDOW_SIZE,
                nj == 100 * (cv0 + j * cc),
                nk == 100 * (WINDOW_SIZE * cc),
                dj == f * ((j + 1) as int) * unit,
                dk == f * (WINDOW_SIZE as int) * unit,
                f > 0,
                unit > 0,
        ;
    } else {
        assert(nj == nk && dj == dk);
    }
    lemma_round_div_le(nk, dk, nj, dj);
}

/// Moving-average convergence under a constant input: between any two
/// passes the output percentage moves only toward the fixed point — upward
/// when the input reads at least as bright as the seed, downward otherwise
/// — and from the tenth pass on the window holds only the constant, so the
/// percentage sits at its fixed point for good.
pub proof fn lemma_constant_input_converges(v0: u32, c: u32, idle: bool, j: nat, k: nat)
    requires
        j <= k,
    ensures
        clamp_sample(v0) <= clamp_sample(c) ==> window_percent(windows_after(v0, c, j), idle)
            <= window_percent(windows_after(v0, c, k), idle),
        clamp_sample(c) <= clamp_sample(v0) ==> window_percent(windows_after(v0, c, k), idle)
            <= window_percent(windows_after(v0, c, j), idle),
        k >= WINDOW_SIZE ==> windows_after(v0, c, k) == Seq::new(
            WINDOW_SIZE as nat,
            |i: int| clamp_sample(c),
        ),
        k >= WINDOW_SIZE ==> window_percent(windows_after(v0, c, k), idle) == window_percent(
            windows_after(v0, c, WINDOW_SIZE as nat),
            idle,
        ),
{
    let jc: nat = if j <= WINDOW_SIZE {
        j
    } else {
        WINDOW_SIZE as nat
    };
    let kc: nat = if k <= WINDOW_SIZE {
        k
    } else {
        WINDOW_SIZE as nat
    };
    if j > WINDOW_SIZE {
        lemma_window_shape(v0, c, j);
        lemma_window_shape(v0, c, WINDOW_SIZE as nat);
        assert(windows_after(v0, c, j) == windows_after(v0, c, WINDOW_SIZE as nat));
    }
    if k > WINDOW_SIZE {
        lemma_window_shape(v0, c, k);
        lemma_window_shape(v0, c, WINDOW_SIZE as nat);
        assert(windows_after(v0, c, k) == windows_after(v0, c, WINDOW_SIZE as nat));
    }
    if clamp_sample(v0) <= clamp_sample(c) {
        lemma_percent_mono_up(v0, c, idle, jc, kc);
    }
    if clamp_sample(c) <= clamp_sample(v0) {
        lemma_percent_mono_down(v0, c, idle, jc, kc);
    }
    if k >= WINDOW_SIZE {
        lemma_window_shape(v0, c, k);
        lemma_window_shape(v0, c, WINDOW_SIZE as nat);
    }
}

/// Idle mode quarters the percentage before rounding: both modes round the
/// same numerator, the idle one over four times the non-idle denominator —
/// the division by four happens on the exact ratio, not on the rounded
/// output.
pub proof fn lemma_idle_quarters(w: Seq<u32>)
    requires
        w.len() >= 1,
    ensures
        window_percent(w, false) == clamp_percent(
            round_div(100 * sum_window(w), percent_denominator(w.len() as int, false)),
        ),
        window_percent(w, true) == clamp_percent(
            round_div(100 * sum_window(w), 4 * percent_denominator(w.len() as int, false)),
        ),
{
    assert(percent_denominator(w.len() as int, true) == 4 * percent_denominator(
        w.len() as int,
        false,
    )) by (nonlinear_arith);
}

/// A window of clamped samples sums to at most its length times the ceiling.
proof fn lemma_sum_window_bound(w: Seq<u32>)
    requires
        forall|i: int| 0 <= i < w.len() ==> w[i] <= LOG_CEILING,
    ensures
        0 <= sum_window(w) <= w.len() * LOG_CEILING,
    decreases w.len(),
{
    if w.len() > 0 {
        lemma_sum_window_bound(w.drop_last());
    }
}

/// Clamp one sample at [`LOG_CEILING`].
fn clamp_to_ceiling(v: u32) -> (r: u32)
    ensures
        r == clamp_sample(v),
{
    if v > LOG_CEILING {
        LOG_CEILING
    } else {
        v
    }
}

} // verus!

