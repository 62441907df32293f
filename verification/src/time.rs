//! Exact media time.
//!
//! Presentation timestamps arrive as integer ticks of a stream time base, and
//! the playback clock counts audio frames at a fixed rate. Both are fractions
//! of a second. Contracts speak of them as [`Seconds`], an exact fraction, and
//! the executable comparisons cross-multiply in 128-bit integers so that no
//! rounding ever decides whether a frame is due.

use vstd::prelude::*;

verus! {

/// An exact number of seconds, `numer / denom`. Exists only in contracts.
pub struct Seconds {
    pub numer: int,
    pub denom: int,
}

impl Seconds {
    /// The denominator is positive.
    pub open spec fn wf(self) -> bool {
        self.denom > 0
    }

    /// `self <= other` as fractions with positive denominators.
    pub open spec fn le(self, other: Seconds) -> bool {
        self.numer * other.denom <= other.numer * self.denom
    }

    /// `self < other` as fractions with positive denominators.
    pub open spec fn lt(self, other: Seconds) -> bool {
        self.numer * other.denom < other.numer * self.denom
    }

    /// The order on seconds is transitive.
    pub proof fn lemma_le_transitive(self, mid: Seconds, other: Seconds)
        requires
            self.wf(),
            mid.wf(),
            other.wf(),
            self.le(mid),
            mid.le(other),
        ensures
            self.le(other),
    {
        let (a, b) = (self.numer, self.denom);
        let (c, d) = (mid.numer, mid.denom);
        let (e, f) = (other.numer, other.denom);
        assert(a * d * f <= c * b * f) by (nonlinear_arith)
            requires
                a * d <= c * b,
                f > 0,
        ;
        assert(c * f * b <= e * d * b) by (nonlinear_arith)
            requires
                c * f <= e * d,
                b > 0,
        ;
        assert(c * b * f == c * f * b) by (nonlinear_arith);
        assert(a * d * f == (a * f) * d) by (nonlinear_arith);
        assert(e * d * b == (e * b) * d) by (nonlinear_arith);
        assert(a * f <= e * b) by (nonlinear_arith)
            requires
                (a * f) * d <= (e * b) * d,
                d > 0,
        ;
    }

    /// An instant strictly before a second one is strictly before everything
    /// at or after the second.
    pub proof fn lemma_lt_le_transitive(self, mid: Seconds, other: Seconds)
        requires
            self.wf(),
            mid.wf(),
            other.wf(),
            self.lt(mid),
            mid.le(other),
        ensures
            self.lt(other),
    {
        let (a, b) = (self.numer, self.denom);
        let (c, d) = (mid.numer, mid.denom);
        let (e, f) = (other.numer, other.denom);
        assert(a * d * f < c * b * f) by (nonlinear_arith)
            requires
                a * d < c * b,
                f > 0,
        ;
        assert(c * f * b <= e * d * b) by (nonlinear_arith)
            requires
                c * f <= e * d,
                b > 0,
        ;
        assert(c * b * f == c * f * b) by (nonlinear_arith);
        assert(a * d * f == (a * f) * d) by (nonlinear_arith);
        assert(e * d * b == (e * b) * d) by (nonlinear_arith);
        assert(a * f < e * b) by (nonlinear_arith)
            requires
                (a * f) * d < (e * b) * d,
                d > 0,
        ;
    }
}

/// The duration of one timestamp tick, `num / den` seconds.
#[derive(Clone, Copy, Debug)]
pub struct TimeBase {
    num: i32,
    den: i32,
}

impl TimeBase {
    /// Numerator of the tick duration.
    pub closed spec fn spec_num(self) -> i32 {
        self.num
    }

    /// Denominator of the tick duration.
    pub closed spec fn spec_den(self) -> i32 {
        self.den
    }

    /// A tick lasts a non-negative time and the denominator is positive.
    #[verifier::type_invariant]
    pub open spec fn wf(self) -> bool {
        self.spec_num() >= 0 && self.spec_den() > 0
    }

    /// Whether `num / den` can serve as a tick duration.
    pub open spec fn valid(num: i32, den: i32) -> bool {
        num >= 0 && den > 0
    }

    /// Builds the time base `num / den`, or `None` when the fraction is
    /// negative or its denominator is not positive.
    pub fn new(num: i32, den: i32) -> (r: Option<TimeBase>)
        ensures
            r is Some <==> Self::valid(num, den),
            r matches Some(b) ==> b.spec_num() == num && b.spec_den() == den && b.wf(),
    {
        if num >= 0 && den > 0 {
            Some(TimeBase { num, den })
        } else {
            None
        }
    }

    /// Numerator of the tick duration.
    #[verifier::when_used_as_spec(spec_num)]
    pub fn num(self) -> (r: i32)
        ensures
            r == self.spec_num(),
            r >= 0,
    {
        proof {
            use_type_invariant(&self);
        }
        self.num
    }

    /// Denominator of the tick duration.
    #[verifier::when_used_as_spec(spec_den)]
    pub fn den(self) -> (r: i32)
        ensures
            r == self.spec_den(),
            r > 0,
    {
        proof {
            use_type_invariant(&self);
        }
        self.den
    }
}

/// The tick count given to a decoded unit whose decoder reported the native
/// timestamp `native`, when the last unit before it was given `last`.
///
/// A stamp never falls back: a native timestamp is taken as it is unless it
/// lies before the last stamp, and a unit without one, as one that would
/// fall back, is given the last stamp again. The first unit of a stream,
/// should it have none, is given tick zero.
pub open spec fn next_ticks(last: Option<i64>, native: Option<i64>) -> i64 {
    match (last, native) {
        (Some(l), Some(n)) => if n >= l {
            n
        } else {
            l
        },
        (None, Some(n)) => n,
        (Some(l), None) => l,
        (None, None) => 0,
    }
}

/// A presentation timestamp: `ticks` ticks of `base`.
#[derive(Clone, Copy, Debug)]
pub struct Timestamp {
    ticks: i64,
    base: TimeBase,
}

impl Timestamp {
    /// Number of ticks since the start of the stream.
    pub closed spec fn spec_ticks(self) -> i64 {
        self.ticks
    }

    /// The time base the ticks are counted in.
    pub closed spec fn spec_base(self) -> TimeBase {
        self.base
    }

    /// The time base is well formed.
    #[verifier::type_invariant]
    pub open spec fn wf(self) -> bool {
        self.spec_base().wf()
    }

    /// The instant this timestamp denotes: `ticks * num / den` seconds.
    pub open spec fn seconds(self) -> Seconds {
        Seconds {
            numer: self.spec_ticks() * self.spec_base().spec_num(),
            denom: self.spec_base().spec_den() as int,
        }
    }

    /// The timestamp `ticks` ticks of `base` after the start of the stream.
    pub fn new(ticks: i64, base: TimeBase) -> (r: Timestamp)
        ensures
            r.spec_ticks() == ticks,
            r.spec_base() == base,
            r.wf(),
    {
        proof {
            use_type_invariant(&base);
        }
        Timestamp { ticks, base }
    }

    /// Stamps a decoded unit that follows one stamped `last`, both counted
    /// in `base`: with its native tick count, or with `last` again where it
    /// has none or would fall back behind it.
    pub fn following(last: Option<i64>, native: Option<i64>, base: TimeBase) -> (r: Timestamp)
        ensures
            r == stamp(next_ticks(last, native), base),
            r.spec_ticks() == next_ticks(last, native),
            r.spec_base() == base,
            r.wf(),
            last matches Some(l) ==> stamp(l, base).seconds().le(r.seconds()),
    {
        let ticks: i64 = match (last, native) {
            (Some(l), Some(n)) => if n >= l {
                n
            } else {
                l
            },
            (None, Some(n)) => n,
            (Some(l), None) => l,
            (None, None) => 0,
        };
        let r = Timestamp::new(ticks, base);
        proof {
            if let Some(l) = last {
                lemma_stamping_keeps_order(stamp(l, base), r);
            }
        }
        r
    }

    /// Number of ticks since the start of the stream.
    #[verifier::when_used_as_spec(spec_ticks)]
    pub fn ticks(self) -> (r: i64)
        ensures
            r == self.spec_ticks(),
    {
        self.ticks
    }

    /// The time base the ticks are counted in.
    #[verifier::when_used_as_spec(spec_base)]
    pub fn base(self) -> (r: TimeBase)
        ensures
            r == self.spec_base(),
            r.wf(),
    {
        proof {
            use_type_invariant(&self);
        }
        self.base
    }

    /// Whether this timestamp is at or before `other`, compared exactly even
    /// across different time bases.
    pub fn le(self, other: Timestamp) -> (b: bool)
        ensures
            b == self.seconds().le(other.seconds()),
    {
        let lhs: i128 = scaled(self.ticks, self.base().num(), other.base().den());
        let rhs: i128 = scaled(other.ticks, other.base().num(), self.base().den());
        lhs <= rhs
    }

    /// Whether this timestamp has been reached when the clock reads `now`.
    pub fn is_due(self, now: ClockTime) -> (b: bool)
        ensures
            b == self.seconds().le(now.seconds()),
    {
        let (q, r) = split_rate(now.rate());
        let part: i128 = scaled(self.ticks, self.base().num(), q);
        proof {
            lemma_scaled_bound(self.ticks as int, self.base().num() as int, q as int);
            lemma_scaled_bound(self.ticks as int, self.base().num() as int, r as int);
        }
        let rest: i128 = scaled(self.ticks, self.base().num(), r);
        let lhs: i128 = part + part + rest;
        let rhs: i128 = now.played(self.base().den());
        proof {
            let t = self.ticks as int;
            let n = self.base().num() as int;
            assert(t * n * now.rate() == t * n * q + t * n * q + t * n * r) by (nonlinear_arith)
                requires
                    now.rate() == q + q + r,
            ;
        }
        lhs <= rhs
    }
}

/// Splits a rate into `q + q + r` with both parts below `2^31`, so that each
/// part fits the signed factor of [`scaled`].
fn split_rate(rate: u32) -> (parts: (i32, i32))
    ensures
        rate == parts.0 + parts.0 + parts.1,
        0 <= parts.0,
        0 <= parts.1 <= 1,
{
    let q: u32 = rate / 2;
    let r: u32 = rate % 2;
    (q as i32, r as i32)
}

/// `|ticks * num * factor|` stays below `2^125` for a non-negative `num` and a
/// non-negative `factor`.
proof fn lemma_scaled_bound(ticks: int, num: int, factor: int)
    requires
        -0x8000_0000_0000_0000 <= ticks < 0x8000_0000_0000_0000,
        0 <= num < 0x8000_0000,
        0 <= factor < 0x8000_0000,
    ensures
        -0x2000_0000_0000_0000_0000_0000_0000_0000 <= ticks * num * factor
            <= 0x2000_0000_0000_0000_0000_0000_0000_0000,
        -0x4000_0000_0000_0000_0000_0000 <= ticks * num <= 0x4000_0000_0000_0000_0000_0000,
{
    assert(-0x8000_0000_0000_0000 * 0x8000_0000 <= ticks * num <= 0x8000_0000_0000_0000
        * 0x8000_0000) by (nonlinear_arith)
        requires
            -0x8000_0000_0000_0000 <= ticks < 0x8000_0000_0000_0000,
            0 <= num < 0x8000_0000,
    ;
    let p = ticks * num;
    assert(-0x4000_0000_0000_0000_0000_0000 * 0x8000_0000 <= p * factor
        <= 0x4000_0000_0000_0000_0000_0000 * 0x8000_0000) by (nonlinear_arith)
        requires
            -0x4000_0000_0000_0000_0000_0000 <= p <= 0x4000_0000_0000_0000_0000_0000,
            0 <= factor < 0x8000_0000,
    ;
}

/// The exact product `ticks * num * factor`.
fn scaled(ticks: i64, num: i32, factor: i32) -> (r: i128)
    requires
        num >= 0,
        factor >= 0,
    ensures
        r == ticks * num * factor,
{
    proof {
        lemma_scaled_bound(ticks as int, num as int, factor as int);
    }
    let p: i128 = (ticks as i128) * (num as i128);
    p * (factor as i128)
}

/// A reading of the playback clock: `samples` audio frames played at `rate`
/// frames per second.
#[derive(Clone, Copy, Debug)]
pub struct ClockTime {
    samples: u64,
    rate: u32,
}

impl ClockTime {
    /// Audio frames played so far.
    pub closed spec fn spec_samples(self) -> u64 {
        self.samples
    }

    /// Audio frames per second.
    pub closed spec fn spec_rate(self) -> u32 {
        self.rate
    }

    /// The rate is positive.
    #[verifier::type_invariant]
    pub open spec fn wf(self) -> bool {
        self.spec_rate() > 0
    }

    /// The instant this reading denotes: `samples / rate` seconds.
    pub open spec fn seconds(self) -> Seconds {
        Seconds { numer: self.spec_samples() as int, denom: self.spec_rate() as int }
    }

    /// The reading `samples / rate` seconds.
    pub fn new(samples: u64, rate: u32) -> (t: ClockTime)
        requires
            rate > 0,
        ensures
            t.spec_samples() == samples,
            t.spec_rate() == rate,
            t.wf(),
    {
        ClockTime { samples, rate }
    }

    /// Audio frames played so far.
    #[verifier::when_used_as_spec(spec_samples)]
    pub fn samples(self) -> (r: u64)
        ensures
            r == self.spec_samples(),
    {
        self.samples
    }

    /// Audio frames per second.
    #[verifier::when_used_as_spec(spec_rate)]
    pub fn rate(self) -> (r: u32)
        ensures
            r == self.spec_rate(),
            r > 0,
    {
        proof {
            use_type_invariant(&self);
        }
        self.rate
    }

    /// The exact product `samples * den`.
    fn played(self, den: i32) -> (r: i128)
        requires
            den > 0,
        ensures
            r == self.spec_samples() * den,
    {
        assert(0 <= self.samples * den <= 0x1_0000_0000_0000_0000 * 0x8000_0000)
            by (nonlinear_arith)
            requires
                0 <= self.samples < 0x1_0000_0000_0000_0000,
                0 < den < 0x8000_0000,
        ;
        (self.samples as i128) * (den as i128)
    }

    /// Whether this reading is at or before `other`.
    pub fn le(self, other: ClockTime) -> (b: bool)
        ensures
            b == self.seconds().le(other.seconds()),
    {
        assert(0 <= self.samples * other.rate <= 0x1_0000_0000_0000_0000 * 0x1_0000_0000)
            by (nonlinear_arith)
            requires
                0 <= self.samples < 0x1_0000_0000_0000_0000,
                0 <= other.rate < 0x1_0000_0000,
        ;
        assert(0 <= other.samples * self.rate <= 0x1_0000_0000_0000_0000 * 0x1_0000_0000)
            by (nonlinear_arith)
            requires
                0 <= other.samples < 0x1_0000_0000_0000_0000,
                0 <= self.rate < 0x1_0000_0000,
        ;
        let lhs: u128 = (self.samples as u128) * (other.rate as u128);
        let rhs: u128 = (other.samples as u128) * (self.rate as u128);
        lhs <= rhs
    }
}

/// Stamping keeps the decoder's order: of two units stamped in one time base,
/// the one with the smaller native tick count is never the later one.
pub proof fn lemma_stamping_keeps_order(earlier: Timestamp, later: Timestamp)
    requires
        earlier.wf(),
        later.wf(),
        earlier.spec_base() == later.spec_base(),
        earlier.spec_ticks() <= later.spec_ticks(),
    ensures
        earlier.seconds().le(later.seconds()),
{
    let n = earlier.spec_base().spec_num() as int;
    let d = earlier.spec_base().spec_den() as int;
    let a = earlier.spec_ticks() as int;
    let b = later.spec_ticks() as int;
    assert(a * n <= b * n) by (nonlinear_arith)
        requires
            a <= b,
            n >= 0,
    ;
    assert((a * n) * d <= (b * n) * d) by (nonlinear_arith)
        requires
            a * n <= b * n,
            d > 0,
    ;
}

/// Whether every timestamp of `stamps` is at or before the one that follows
/// it.
pub open spec fn non_decreasing(stamps: Seq<Timestamp>) -> bool {
    forall|i: int, j: int|
        0 <= i <= j < stamps.len() ==> (#[trigger] stamps[i]).seconds().le(
            (#[trigger] stamps[j]).seconds(),
        )
}

/// The timestamp of `ticks` ticks of `base`.
pub closed spec fn stamp(ticks: i64, base: TimeBase) -> Timestamp {
    Timestamp { ticks, base }
}

/// What [`stamp`] holds: the tick count, in the given base.
pub proof fn lemma_stamp(ticks: i64, base: TimeBase)
    ensures
        stamp(ticks, base).spec_ticks() == ticks,
        stamp(ticks, base).spec_base() == base,
        base.wf() ==> stamp(ticks, base).wf(),
{
}

/// The tick counts given to a run of decoded units with the native
/// timestamps `native`, in the order they were decoded, after a unit that
/// was given `last`.
pub open spec fn stamped_ticks(last: Option<i64>, native: Seq<Option<i64>>) -> Seq<i64>
    decreases native.len(),
{
    if native.len() == 0 {
        Seq::empty()
    } else {
        let first = next_ticks(last, native[0]);
        seq![first] + stamped_ticks(Some(first), native.skip(1))
    }
}

/// The timestamps a worker gives, from the start of a stream counted in
/// `base`, to a run of decoded units with the native timestamps `native`.
pub open spec fn stamped(native: Seq<Option<i64>>, base: TimeBase) -> Seq<Timestamp> {
    Seq::new(native.len(), |i: int| stamp(stamped_ticks(None, native)[i], base))
}

/// Whether the native timestamps that are present in `native` are in
/// order, none before `last`.
pub open spec fn present_in_order(last: Option<i64>, native: Seq<Option<i64>>) -> bool {
    &&& forall|i: int|
        0 <= i < native.len() ==> (last matches Some(l) && #[trigger] native[i] matches Some(n)
            ==> l <= n)
    &&& forall|i: int, j: int|
        0 <= i <= j < native.len() ==> (#[trigger] native[i] matches Some(a)
            && #[trigger] native[j] matches Some(b) ==> a <= b)
}

/// The tick counts of a run are as many as its units, none lies before the
/// last stamp given, and none before one given earlier in the run.
pub proof fn lemma_stamped_ticks_ordered(last: Option<i64>, native: Seq<Option<i64>>)
    ensures
        stamped_ticks(last, native).len() == native.len(),
        forall|i: int|
            0 <= i < native.len() ==> (last matches Some(l) ==> l <= #[trigger] stamped_ticks(
                last,
                native,
            )[i]),
        forall|i: int, j: int|
            0 <= i <= j < native.len() ==> #[trigger] stamped_ticks(last, native)[i]
                <= #[trigger] stamped_ticks(last, native)[j],
    decreases native.len(),
{
    if native.len() > 0 {
        let first = next_ticks(last, native[0]);
        let rest = stamped_ticks(Some(first), native.skip(1));
        lemma_stamped_ticks_ordered(Some(first), native.skip(1));
        let all = stamped_ticks(last, native);
        assert forall|i: int| 0 <= i < native.len() implies (last matches Some(l) ==> l
            <= #[trigger] all[i]) by {
            if i > 0 {
                assert(all[i] == rest[i - 1]);
            }
        }
        assert forall|i: int, j: int| 0 <= i <= j < native.len() implies #[trigger] all[i]
            <= #[trigger] all[j] by {
            if i > 0 {
                assert(all[i] == rest[i - 1]);
                assert(all[j] == rest[j - 1]);
            } else if j > 0 {
                assert(all[j] == rest[j - 1]);
            }
        }
    }
}

/// Where the native timestamps that are present are in order, every unit
/// that has one is given exactly that, and a unit that has none is given
/// the stamp of the unit before it.
pub proof fn lemma_stamped_ticks_keep_native(last: Option<i64>, native: Seq<Option<i64>>)
    requires
        present_in_order(last, native),
    ensures
        forall|i: int|
            0 <= i < native.len() ==> (#[trigger] native[i] matches Some(n) ==> stamped_ticks(
                last,
                native,
            )[i] == n),
        forall|i: int|
            0 < i < native.len() && (#[trigger] native[i]) is None ==> stamped_ticks(
                last,
                native,
            )[i] == stamped_ticks(last, native)[i - 1],
    decreases native.len(),
{
    if native.len() > 0 {
        let first = next_ticks(last, native[0]);
        let tail = native.skip(1);
        let rest = stamped_ticks(Some(first), tail);
        assert(present_in_order(Some(first), tail)) by {
            assert forall|i: int| 0 <= i < tail.len() implies (#[trigger] tail[i] matches Some(n)
                ==> first <= n) by {
                assert(tail[i] == native[i + 1]);
                if let Some(n) = tail[i] {
                    assert(native[0] matches Some(a) ==> a <= n);
                }
            }
            assert forall|i: int, j: int| 0 <= i <= j < tail.len() implies (#[trigger] tail[i] matches Some(
                a,
            ) && #[trigger] tail[j] matches Some(b) ==> a <= b) by {
                assert(tail[i] == native[i + 1]);
                assert(tail[j] == native[j + 1]);
            }
        }
        lemma_stamped_ticks_keep_native(Some(first), tail);
        lemma_stamped_ticks_ordered(Some(first), tail);
        let all = stamped_ticks(last, native);
        assert forall|i: int| 0 <= i < native.len() implies (#[trigger] native[i] matches Some(n)
            ==> all[i] == n) by {
            if i > 0 {
                assert(tail[i - 1] == native[i]);
                assert(all[i] == rest[i - 1]);
            }
        }
        assert forall|i: int| 0 < i < native.len() && (#[trigger] native[i]) is None implies all[i]
            == all[i - 1] by {
            assert(tail[i - 1] == native[i]);
            assert(all[i] == rest[i - 1]);
            if i > 1 {
                assert(all[i - 1] == rest[i - 2]);
            }
        }
    }
}

/// The timestamps a worker emits never decrease, whatever the decoder
/// reports: not for units without a native timestamp, and not for what is
/// drained at the end of the stream.
pub proof fn lemma_stamped_non_decreasing(native: Seq<Option<i64>>, base: TimeBase)
    requires
        base.wf(),
    ensures
        stamped(native, base).len() == native.len(),
        non_decreasing(stamped(native, base)),
{
    let out = stamped(native, base);
    lemma_stamped_ticks_ordered(None, native);
    assert forall|i: int, j: int| 0 <= i <= j < out.len() implies (#[trigger] out[i]).seconds().le(
        (#[trigger] out[j]).seconds(),
    ) by {
        lemma_stamping_keeps_order(out[i], out[j]);
    }
}

} // verus!
