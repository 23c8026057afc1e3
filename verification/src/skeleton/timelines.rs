//! Keyframe timelines and the curves between their keyframes.

use vstd::prelude::*;
use crate::collect::{lemma_collect_error, lemma_collect_step, spec_collect};
use crate::format::Curve;
use crate::hex::{hex_bytes, parse_color, spec_color, HexError};
use crate::scalar::{lemma_lerp_ends, saturate, Scalar, MICROS_PER_UNIT};
use crate::skeleton::error::{ErrorView, SkeletonError};
use crate::skeleton::srt::SRT;

verus! {

/// The number of straight pieces that stand for a Bézier curve.
pub const BEZIER_SEGMENTS: usize = 10;

/// A value that can be moved part of the way to another.
pub trait Interpolate: Sized + Copy {
    /// The value at fraction `percent` of the way from `self` to `next`.
    spec fn spec_interpolate(&self, next: &Self, percent: Scalar) -> Self;

    /// Moves from `self` towards `next` by the fraction `percent`.
    fn interpolate(&self, next: &Self, percent: Scalar) -> (r: Self)
        ensures
            r == self.spec_interpolate(next, percent),
    ;

    /// At fraction zero the value is `self`, at fraction one it is `next`, exactly.
    proof fn lemma_endpoints(&self, next: &Self)
        ensures
            self.spec_interpolate(next, Scalar::spec_zero()) == *self,
            self.spec_interpolate(next, Scalar::spec_one()) == *next,
    ;
}

impl Interpolate for Scalar {
    open spec fn spec_interpolate(&self, next: &Self, percent: Scalar) -> Self {
        self.spec_lerp(*next, percent)
    }

    fn interpolate(&self, next: &Self, percent: Scalar) -> (r: Self) {
        self.lerp(*next, percent)
    }

    proof fn lemma_endpoints(&self, next: &Self) {
        lemma_lerp_ends(*self, *next);
        assert(self.spec_interpolate(next, Scalar::spec_zero()) == self.spec_lerp(
            *next,
            Scalar::spec_zero(),
        ));
        assert(self.spec_interpolate(next, Scalar::spec_one()) == self.spec_lerp(
            *next,
            Scalar::spec_one(),
        ));
    }
}

impl Interpolate for [Scalar; 2] {
    open spec fn spec_interpolate(&self, next: &Self, percent: Scalar) -> Self {
        [self[0].spec_lerp(next[0], percent), self[1].spec_lerp(next[1], percent)]
    }

    fn interpolate(&self, next: &Self, percent: Scalar) -> (r: Self) {
        [self[0].lerp(next[0], percent), self[1].lerp(next[1], percent)]
    }

    proof fn lemma_endpoints(&self, next: &Self) {
        let at_zero = self.spec_interpolate(next, Scalar::spec_zero());
        let at_one = self.spec_interpolate(next, Scalar::spec_one());
        self[0].lemma_endpoints(&next[0]);
        self[1].lemma_endpoints(&next[1]);
        assert(at_zero =~= *self);
        assert(at_one =~= *next);
    }
}

/// A colour channel at fraction `percent` of the way from `from` to `to`, held to a byte.
pub open spec fn spec_channel(from: u8, to: u8, percent: Scalar) -> u8 {
    let moved = Scalar { micros: from as i64 }.spec_lerp(Scalar { micros: to as i64 }, percent)@;
    if moved < 0 {
        0u8
    } else if moved > 255 {
        255u8
    } else {
        moved as u8
    }
}

fn channel(from: u8, to: u8, percent: Scalar) -> (r: u8)
    ensures
        r == spec_channel(from, to, percent),
{
    let moved = Scalar { micros: from as i64 }.lerp(Scalar { micros: to as i64 }, percent).micros;
    if moved < 0 {
        0
    } else if moved > 255 {
        255
    } else {
        moved as u8
    }
}

impl Interpolate for [u8; 4] {
    open spec fn spec_interpolate(&self, next: &Self, percent: Scalar) -> Self {
        [
            spec_channel(self[0], next[0], percent),
            spec_channel(self[1], next[1], percent),
            spec_channel(self[2], next[2], percent),
            spec_channel(self[3], next[3], percent),
        ]
    }

    fn interpolate(&self, next: &Self, percent: Scalar) -> (r: Self) {
        [
            channel(self[0], next[0], percent),
            channel(self[1], next[1], percent),
            channel(self[2], next[2], percent),
            channel(self[3], next[3], percent),
        ]
    }

    proof fn lemma_endpoints(&self, next: &Self) {
        let at_zero = self.spec_interpolate(next, Scalar::spec_zero());
        let at_one = self.spec_interpolate(next, Scalar::spec_one());
        lemma_channel_endpoints(self[0], next[0]);
        lemma_channel_endpoints(self[1], next[1]);
        lemma_channel_endpoints(self[2], next[2]);
        lemma_channel_endpoints(self[3], next[3]);
        assert(at_zero =~= *self);
        assert(at_one =~= *next);
    }
}

proof fn lemma_channel_endpoints(from: u8, to: u8)
    ensures
        spec_channel(from, to, Scalar::spec_zero()) == from,
        spec_channel(from, to, Scalar::spec_one()) == to,
{
    lemma_lerp_ends(Scalar { micros: from as i64 }, Scalar { micros: to as i64 });
}

/// One coordinate of the point at `k` tenths along the cubic Bézier curve that
/// runs from 0 to 1 with the control values `c1` and `c2`.
pub open spec fn spec_point(c1: Scalar, c2: Scalar, k: int) -> Scalar {
    saturate(
        (3 * (10 - k) * (10 - k) * k * c1@ + 3 * (10 - k) * k * k * c2@ + k * k * k * 1_000_000)
            / 1000,
    )
}

/// The sample points of a Bézier curve at one tenth, two tenths, and so on up to the end.
pub open spec fn spec_points(c1: Scalar, c2: Scalar) -> Seq<Scalar> {
    Seq::new(10, |i: int| spec_point(c1, c2, i + 1))
}

/// The first sample from `k` on whose time is not before `percent`; the last sample if none is.
pub open spec fn spec_reaching(xs: Seq<Scalar>, percent: Scalar, k: int) -> int
    decreases xs.len() - k,
{
    if k + 1 >= xs.len() {
        xs.len() - 1
    } else if xs[k]@ >= percent@ {
        k
    } else {
        spec_reaching(xs, percent, k + 1)
    }
}

/// The fraction of the value that a Bézier curve gives at the fraction `percent` of the time:
/// on the straight piece between the two samples around `percent`.
pub open spec fn spec_bezier_percent(xs: Seq<Scalar>, ys: Seq<Scalar>, percent: Scalar) -> Scalar {
    let k = spec_reaching(xs, percent, 0);
    let prev_x = if k == 0 {
        Scalar::spec_zero()
    } else {
        xs[k - 1]
    };
    let prev_y = if k == 0 {
        Scalar::spec_zero()
    } else {
        ys[k - 1]
    };
    prev_y.spec_lerp(ys[k], percent.spec_sub(prev_x).spec_ratio(xs[k].spec_sub(prev_x)))
}

/// Whether the curve can be used: the control points of a Bézier curve lie
/// between zero and one in time.
pub open spec fn spec_curve_valid(curve: Curve) -> bool {
    match curve {
        Curve::Bezier(cx1, _, cx2, _) => 0 <= cx1@ <= 1_000_000 && 0 <= cx2@ <= 1_000_000,
        _ => true,
    }
}

/// The fraction of the value that the curve gives at the fraction `percent` of the time.
/// The time fraction is first held to the range from zero to one.
pub open spec fn spec_percent(curve: Curve, percent: Scalar) -> Scalar {
    match curve {
        Curve::Stepped => Scalar::spec_zero(),
        Curve::Linear => percent.spec_unit_clamp(),
        Curve::Bezier(cx1, cy1, cx2, cy2) => spec_bezier_percent(
            spec_points(cx1, cx2),
            spec_points(cy1, cy2),
            percent.spec_unit_clamp(),
        ),
    }
}

/// The value at the fraction `t` of the time between two keyframes that hold
/// `from` and `to`, under the curve of the first.
pub open spec fn spec_interpolate<T: Interpolate>(curve: Curve, from: T, to: T, t: Scalar) -> T {
    from.spec_interpolate(&to, spec_percent(curve, t))
}

/// A linear curve gives `from` at time fraction zero and `to` at time fraction one, exactly.
pub proof fn lemma_linear_endpoints<T: Interpolate>(from: T, to: T)
    ensures
        spec_interpolate(Curve::Linear, from, to, Scalar::spec_zero()) == from,
        spec_interpolate(Curve::Linear, from, to, Scalar::spec_one()) == to,
{
    from.lemma_endpoints(&to);
}

/// A stepped curve holds `from` at every time fraction.
pub proof fn lemma_stepped_holds<T: Interpolate>(from: T, to: T, t: Scalar)
    ensures
        spec_interpolate(Curve::Stepped, from, to, t) == from,
{
    from.lemma_endpoints(&to);
}

fn bezier_point(c1: Scalar, c2: Scalar, k: u8) -> (r: Scalar)
    requires
        1 <= k <= 10,
    ensures
        r == spec_point(c1, c2, k as int),
{
    let left: i128 = 10 - k as i128;
    let step: i128 = k as i128;
    assert(0 <= left * left <= 81 && 0 <= left * step <= 90 && 0 <= step * step <= 100)
        by (nonlinear_arith)
        requires
            0 <= left <= 9,
            1 <= step <= 10,
    ;
    let ll: i128 = left * left;
    let ls: i128 = left * step;
    let ss: i128 = step * step;
    assert(0 <= ll * step <= 810 && 0 <= ls * step <= 900 && 0 <= ss * step <= 1000)
        by (nonlinear_arith)
        requires
            0 <= ll <= 81,
            0 <= ls <= 90,
            0 <= ss <= 100,
            1 <= step <= 10,
    ;
    let a: i128 = 3 * (ll * step);
    let b: i128 = 3 * (ls * step);
    let c: i128 = ss * step;
    let c1m: i128 = c1.micros as i128;
    let c2m: i128 = c2.micros as i128;
    assert(-2700 * 0x8000_0000_0000_0000 <= a * c1m <= 2700 * 0x8000_0000_0000_0000 && -2700
        * 0x8000_0000_0000_0000 <= b * c2m <= 2700 * 0x8000_0000_0000_0000) by (nonlinear_arith)
        requires
            0 <= a <= 2700,
            0 <= b <= 2700,
            -0x8000_0000_0000_0000 <= c1m <= 0x7fff_ffff_ffff_ffff,
            -0x8000_0000_0000_0000 <= c2m <= 0x7fff_ffff_ffff_ffff,
    ;
    let sum: i128 = a * c1m + b * c2m + c * (MICROS_PER_UNIT as i128);
    assert(sum == 3 * (10 - k) * (10 - k) * k * c1@ + 3 * (10 - k) * k * k * c2@ + k * k * k
        * 1_000_000) by (nonlinear_arith)
        requires
            sum == a * c1m + b * c2m + c * 1_000_000,
            a == 3 * ((left * left) * step),
            b == 3 * ((left * step) * step),
            c == (step * step) * step,
            left == 10 - k,
            step == k,
            c1m == c1@,
            c2m == c2@,
    ;
    crate::scalar::narrow(crate::scalar::div_floor(sum, 1000))
}

/// A keyframe: a value at a time, with the curve that leads to the next keyframe.
#[derive(Debug, Clone, Copy)]
pub struct CurveTimeline<T> {
    /// The time in seconds.
    pub time: Scalar,
    /// How the value moves on to the next keyframe.
    pub curve: Curve,
    /// The value at the keyframe.
    pub value: T,
}

impl<T> CurveTimeline<T> {
    /// Samples a Bézier curve at every tenth: the times in the first list, the
    /// value fractions in the second. Other curves have no samples.
    pub fn compute_points(curve: &Curve) -> (r: Option<(Vec<Scalar>, Vec<Scalar>)>)
        ensures
            match *curve {
                Curve::Bezier(cx1, cy1, cx2, cy2) => r matches Some(points) && points.0@
                    == spec_points(cx1, cx2) && points.1@ == spec_points(cy1, cy2),
                _ => r is None,
            },
    {
        let (cx1, cy1, cx2, cy2) = match *curve {
            Curve::Stepped | Curve::Linear => {
                return None;
            },
            Curve::Bezier(cx1, cy1, cx2, cy2) => (cx1, cy1, cx2, cy2),
        };
        let mut vec_x: Vec<Scalar> = Vec::with_capacity(BEZIER_SEGMENTS);
        let mut vec_y: Vec<Scalar> = Vec::with_capacity(BEZIER_SEGMENTS);
        let mut k: u8 = 1;
        while k <= 10
            invariant
                1 <= k <= 11,
                vec_x@.len() == k - 1,
                vec_y@.len() == k - 1,
                forall|i: int| 0 <= i < k - 1 ==> vec_x@[i] == spec_point(cx1, cx2, i + 1),
                forall|i: int| 0 <= i < k - 1 ==> vec_y@[i] == spec_point(cy1, cy2, i + 1),
            decreases 11 - k,
        {
            vec_x.push(bezier_point(cx1, cx2, k));
            vec_y.push(bezier_point(cy1, cy2, k));
            k += 1;
        }
        assert(vec_x@ =~= spec_points(cx1, cx2));
        assert(vec_y@ =~= spec_points(cy1, cy2));
        Some((vec_x, vec_y))
    }

    /// The fraction of the way to the next keyframe's value at the fraction
    /// `percent` of the time to the next keyframe.
    pub fn get_percent(&self, percent: Scalar) -> (r: Scalar)
        ensures
            r == spec_percent(self.curve, percent),
    {
        let p = percent.unit_clamp();
        match Self::compute_points(&self.curve) {
            None => match self.curve {
                Curve::Stepped => Scalar::zero(),
                _ => p,
            },
            Some((xs, ys)) => {
                let mut k: usize = 0;
                while k + 1 < xs.len() && xs[k].micros < p.micros
                    invariant
                        k < xs@.len(),
                        xs@.len() == 10,
                        spec_reaching(xs@, p, k as int) == spec_reaching(xs@, p, 0),
                    decreases xs@.len() - k,
                {
                    k += 1;
                }
                let prev_x = if k == 0 {
                    Scalar::zero()
                } else {
                    xs[k - 1]
                };
                let prev_y = if k == 0 {
                    Scalar::zero()
                } else {
                    ys[k - 1]
                };
                prev_y.lerp(ys[k], p.sub(prev_x).ratio(xs[k].sub(prev_x)))
            },
        }
    }
}

/// The value at the fraction `t` of the time between two keyframes that hold
/// `from` and `to`, under `curve`.
pub fn interpolate<T: Interpolate>(curve: &Curve, from: &T, to: &T, t: Scalar) -> (r: T)
    ensures
        r == spec_interpolate(*curve, *from, *to, t),
{
    let frame = CurveTimeline { time: Scalar::zero(), curve: *curve, value: *from };
    from.interpolate(to, frame.get_percent(t))
}

/// Something that happens at a time.
pub trait Timeline {
    /// The time in seconds.
    spec fn spec_time(&self) -> Scalar;

    /// The time in seconds.
    fn time(&self) -> (r: Scalar)
        ensures
            r == self.spec_time(),
    ;
}

impl<T> Timeline for CurveTimeline<T> {
    open spec fn spec_time(&self) -> Scalar {
        self.time
    }

    fn time(&self) -> (r: Scalar) {
        self.time
    }
}

impl Timeline for crate::format::BoneTranslateTimeline {
    open spec fn spec_time(&self) -> Scalar {
        self.time
    }

    fn time(&self) -> (r: Scalar) {
        self.time
    }
}

impl Timeline for crate::format::BoneRotateTimeline {
    open spec fn spec_time(&self) -> Scalar {
        self.time
    }

    fn time(&self) -> (r: Scalar) {
        self.time
    }
}

impl Timeline for crate::format::BoneScaleTimeline {
    open spec fn spec_time(&self) -> Scalar {
        self.time
    }

    fn time(&self) -> (r: Scalar) {
        self.time
    }
}

impl Timeline for crate::format::SlotColorTimeline {
    open spec fn spec_time(&self) -> Scalar {
        self.time
    }

    fn time(&self) -> (r: Scalar) {
        self.time
    }
}

impl Timeline for crate::format::SlotAttachmentTimeline {
    open spec fn spec_time(&self) -> Scalar {
        self.time
    }

    fn time(&self) -> (r: Scalar) {
        self.time
    }
}

impl Timeline for crate::format::EventKeyframe {
    open spec fn spec_time(&self) -> Scalar {
        self.time
    }

    fn time(&self) -> (r: Scalar) {
        self.time
    }
}

impl Timeline for crate::format::DrawOrderTimeline {
    open spec fn spec_time(&self) -> Scalar {
        self.time
    }

    fn time(&self) -> (r: Scalar) {
        self.time
    }
}

/// The time `e` lies between keyframe `i` and the next: at or after the one, before the other.
pub open spec fn holds<U: Timeline>(frames: Seq<U>, e: Scalar, i: int) -> bool {
    &&& 0 <= i
    &&& i + 1 < frames.len()
    &&& frames[i].spec_time()@ <= e@
    &&& e@ < frames[i + 1].spec_time()@
}

/// The first keyframe from `i` on that, with the next, has `e` between them.
pub open spec fn spec_segment<U: Timeline>(frames: Seq<U>, e: Scalar, i: int) -> int
    decreases frames.len() - i,
{
    if i + 1 >= frames.len() || holds(frames, e, i) {
        i
    } else {
        spec_segment(frames, e, i + 1)
    }
}

/// Which keyframe governs at a time.
#[derive(Debug, Clone, Copy, PartialEq, Eq, Structural)]
pub enum Place {
    /// There is no keyframe.
    Nowhere,
    /// The time is before the first keyframe, or at or after the last: the
    /// keyframe of that index governs alone.
    At(usize),
    /// The time is at or after the keyframe of that index and before the next.
    Between(usize),
}

/// From a keyframe that is not after `e`, and with `e` before the last
/// keyframe, the search finds two neighbours with `e` between them, and no
/// earlier pair from `i` on has `e` between them.
pub proof fn lemma_segment<U: Timeline>(frames: Seq<U>, e: Scalar, i: int)
    requires
        0 <= i < frames.len(),
        frames[i].spec_time()@ <= e@,
        e@ < frames.last().spec_time()@,
    ensures
        holds(frames, e, spec_segment(frames, e, i)),
        i <= spec_segment(frames, e, i),
        forall|j: int| i <= j < spec_segment(frames, e, i) ==> !holds(frames, e, j),
    decreases frames.len() - i,
{
    if i + 1 < frames.len() && !holds(frames, e, i) {
        lemma_segment(frames, e, i + 1);
    }
}

/// Where the times never decrease, only one pair of neighbours has `e` between them.
pub proof fn lemma_segment_unique<U: Timeline>(frames: Seq<U>, e: Scalar, i: int, j: int)
    requires
        forall|a: int, b: int|
            0 <= a <= b < frames.len() ==> frames[a].spec_time()@ <= frames[b].spec_time()@,
        holds(frames, e, i),
        holds(frames, e, j),
    ensures
        i == j,
{
    if i < j {
        assert(frames[i + 1].spec_time()@ <= frames[j].spec_time()@);
    } else if j < i {
        assert(frames[j + 1].spec_time()@ <= frames[i].spec_time()@);
    }
}

/// Finds which keyframe governs at the time `e`.
pub fn locate<U: Timeline>(frames: &Vec<U>, e: Scalar) -> (r: Place)
    ensures
        match r {
            Place::Nowhere => frames@.len() == 0,
            Place::At(i) => frames@.len() > 0 && if e@ < frames@[0].spec_time()@ {
                i == 0
            } else {
                e@ >= frames@.last().spec_time()@ && i == frames@.len() - 1
            },
            Place::Between(i) => frames@.len() > 0 && frames@[0].spec_time()@ <= e@
                < frames@.last().spec_time()@ && i == spec_segment(frames@, e, 0) && holds(
                frames@,
                e,
                i as int,
            ),
        },
{
    let n = frames.len();
    if n == 0 {
        return Place::Nowhere;
    }
    if e.micros < frames[0].time().micros {
        return Place::At(0);
    }
    if e.micros >= frames[n - 1].time().micros {
        return Place::At(n - 1);
    }
    proof {
        lemma_segment(frames@, e, 0);
    }
    let mut i: usize = 0;
    while !(frames[i].time().micros <= e.micros && e.micros < frames[i + 1].time().micros)
        invariant
            n == frames@.len(),
            i + 1 < n,
            spec_segment(frames@, e, i as int) == spec_segment(frames@, e, 0),
            holds(frames@, e, spec_segment(frames@, e, 0)),
            i <= spec_segment(frames@, e, 0),
        decreases n - i,
    {
        i += 1;
    }
    Place::Between(i)
}

/// The latest of `floor` and the times of the first `n` keyframes.
pub open spec fn spec_latest<U: Timeline>(frames: Seq<U>, floor: Scalar, n: int) -> Scalar
    decreases n,
{
    if n <= 0 {
        floor
    } else {
        spec_latest(frames, floor, n - 1).spec_max(frames[n - 1].spec_time())
    }
}

/// The latest time is not before `floor` nor before any keyframe, and it is
/// `floor` or the time of a keyframe.
pub proof fn lemma_latest<U: Timeline>(frames: Seq<U>, floor: Scalar, n: int)
    requires
        0 <= n <= frames.len(),
    ensures
        spec_latest(frames, floor, n)@ >= floor@,
        forall|i: int| 0 <= i < n ==> frames[i].spec_time()@ <= spec_latest(frames, floor, n)@,
        spec_latest(frames, floor, n) == floor || exists|i: int|
            0 <= i < n && frames[i].spec_time() == spec_latest(frames, floor, n),
    decreases n,
{
    if n > 0 {
        lemma_latest(frames, floor, n - 1);
        let before = spec_latest(frames, floor, n - 1);
        if before != floor && before@ >= frames[n - 1].spec_time()@ {
            let i = choose|i: int| 0 <= i < n - 1 && frames[i].spec_time() == before;
            assert(0 <= i < n && frames[i].spec_time() == spec_latest(frames, floor, n));
        } else if before@ < frames[n - 1].spec_time()@ {
            assert(frames[n - 1].spec_time() == spec_latest(frames, floor, n));
        }
    }
}

/// The latest of `floor` and the times of the keyframes.
pub fn latest<U: Timeline>(frames: &Vec<U>, floor: Scalar) -> (r: Scalar)
    ensures
        r == spec_latest(frames@, floor, frames@.len() as int),
{
    let mut best = floor;
    let mut i: usize = 0;
    while i < frames.len()
        invariant
            i <= frames@.len(),
            best == spec_latest(frames@, floor, i as int),
        decreases frames@.len() - i,
    {
        best = best.max(frames[i].time());
        i += 1;
    }
    best
}

/// A list of keyframes of one property.
#[derive(Debug, Clone)]
pub struct CurveTimelines<T> {
    /// The keyframes in document order.
    pub timelines: Vec<CurveTimeline<T>>,
}

impl<T> View for CurveTimelines<T> {
    type V = Seq<CurveTimeline<T>>;

    open spec fn view(&self) -> Seq<CurveTimeline<T>> {
        self.timelines@
    }
}

/// The value between two keyframes at the time `e`.
pub open spec fn spec_between<T: Interpolate>(
    before: CurveTimeline<T>,
    after: CurveTimeline<T>,
    e: Scalar,
) -> T {
    spec_interpolate(
        before.curve,
        before.value,
        after.value,
        e.spec_sub(before.time).spec_ratio(after.time.spec_sub(before.time)),
    )
}

/// The value of a timeline at the time `elapsed`, or `None` where there is no
/// keyframe: the first value before the first keyframe, the last value at or
/// after the last, and between two keyframes the value that the curve of the
/// earlier one gives.
pub open spec fn spec_at<T: Interpolate>(frames: Seq<CurveTimeline<T>>, elapsed: Scalar) -> Option<
    T,
> {
    if frames.len() == 0 {
        None
    } else if elapsed@ < frames[0].time@ {
        Some(frames[0].value)
    } else if elapsed@ >= frames.last().time@ {
        Some(frames.last().value)
    } else {
        let i = spec_segment(frames, elapsed, 0);
        Some(spec_between(frames[i], frames[i + 1], elapsed))
    }
}

/// Before the first keyframe a timeline gives the value of the first keyframe.
pub proof fn lemma_before_first<T: Interpolate>(frames: Seq<CurveTimeline<T>>, e: Scalar)
    requires
        frames.len() > 0,
        e@ < frames[0].time@,
    ensures
        spec_at(frames, e) == Some(frames[0].value),
{
}

/// At or after the last keyframe, and not before the first, a timeline gives
/// the value of the last keyframe.
pub proof fn lemma_after_last<T: Interpolate>(frames: Seq<CurveTimeline<T>>, e: Scalar)
    requires
        frames.len() > 0,
        e@ >= frames.last().time@,
        e@ >= frames[0].time@,
    ensures
        spec_at(frames, e) == Some(frames.last().value),
{
}

/// From the last keyframe on the value no longer changes.
pub proof fn lemma_settled<T: Interpolate>(frames: Seq<CurveTimeline<T>>, e2: Scalar, e3: Scalar)
    requires
        frames.len() > 0,
        e2@ >= frames.last().time@,
        e2@ >= frames[0].time@,
        e3@ >= e2@,
    ensures
        spec_at(frames, e3) == spec_at(frames, e2),
{
}

/// Between the first and the last keyframe the value lies between two
/// neighbours that have the time between them, and no earlier pair has.
pub proof fn lemma_between<T: Interpolate>(frames: Seq<CurveTimeline<T>>, e: Scalar)
    requires
        frames.len() > 0,
        frames[0].time@ <= e@,
        e@ < frames.last().time@,
    ensures
        ({
            let i = spec_segment(frames, e, 0);
            &&& holds(frames, e, i)
            &&& forall|j: int| 0 <= j < i ==> !holds(frames, e, j)
            &&& spec_at(frames, e) == Some(spec_between(frames[i], frames[i + 1], e))
        }),
{
    lemma_segment(frames, e, 0);
}

/// A keyframe as a document records it: a time, a curve and a value that may
/// have to be read from text.
pub trait Keyframe<T>: Timeline {
    /// The curve that leads to the next keyframe; linear where the document names none.
    spec fn spec_curve(&self) -> Curve;

    /// The value, or `None` where the document's text for it cannot be read.
    spec fn spec_value(&self) -> Option<T>;

    /// The curve that leads to the next keyframe; linear where the document names none.
    fn curve(&self) -> (r: Curve)
        ensures
            r == self.spec_curve(),
    ;

    /// The value at the keyframe, with the document's defaults filled in.
    fn value(&self) -> (r: Result<T, SkeletonError>)
        ensures
            match r {
                Ok(value) => self.spec_value() == Some(value),
                Err(e) => self.spec_value() is None && e@ == ErrorView::InvalidColor,
            },
    ;
}

/// The curve of a record, linear where none is named.
pub open spec fn spec_curve_or_linear(curve: Option<Curve>) -> Curve {
    match curve {
        Some(c) => c,
        None => Curve::Linear,
    }
}

/// The value of a record, or the default where none is given.
pub open spec fn spec_or<T>(value: Option<T>, default: T) -> T {
    match value {
        Some(v) => v,
        None => default,
    }
}

fn curve_or_linear(curve: &Option<Curve>) -> (r: Curve)
    ensures
        r == spec_curve_or_linear(*curve),
{
    match curve {
        Some(c) => *c,
        None => Curve::Linear,
    }
}

/// Fills in a default for a value that a document may leave out.
pub fn or<T: Copy>(value: &Option<T>, default: T) -> (r: T)
    ensures
        r == spec_or(*value, default),
{
    match value {
        Some(v) => *v,
        None => default,
    }
}

impl Keyframe<[Scalar; 2]> for crate::format::BoneTranslateTimeline {
    open spec fn spec_curve(&self) -> Curve {
        spec_curve_or_linear(self.curve)
    }

    open spec fn spec_value(&self) -> Option<[Scalar; 2]> {
        Some([spec_or(self.x, Scalar::spec_zero()), spec_or(self.y, Scalar::spec_zero())])
    }

    fn curve(&self) -> (r: Curve) {
        curve_or_linear(&self.curve)
    }

    fn value(&self) -> (r: Result<[Scalar; 2], SkeletonError>) {
        Ok([or(&self.x, Scalar::zero()), or(&self.y, Scalar::zero())])
    }
}

impl Keyframe<[Scalar; 2]> for crate::format::BoneScaleTimeline {
    open spec fn spec_curve(&self) -> Curve {
        spec_curve_or_linear(self.curve)
    }

    open spec fn spec_value(&self) -> Option<[Scalar; 2]> {
        Some([spec_or(self.x, Scalar::spec_one()), spec_or(self.y, Scalar::spec_one())])
    }

    fn curve(&self) -> (r: Curve) {
        curve_or_linear(&self.curve)
    }

    fn value(&self) -> (r: Result<[Scalar; 2], SkeletonError>) {
        Ok([or(&self.x, Scalar::one()), or(&self.y, Scalar::one())])
    }
}

impl Keyframe<Scalar> for crate::format::BoneRotateTimeline {
    open spec fn spec_curve(&self) -> Curve {
        spec_curve_or_linear(self.curve)
    }

    open spec fn spec_value(&self) -> Option<Scalar> {
        Some(spec_or(self.angle, Scalar::spec_zero()))
    }

    fn curve(&self) -> (r: Curve) {
        curve_or_linear(&self.curve)
    }

    fn value(&self) -> (r: Result<Scalar, SkeletonError>) {
        Ok(or(&self.angle, Scalar::zero()))
    }
}

/// The colour that a document's text stands for; opaque white where there is no text.
pub open spec fn spec_color_or_white(text: Option<String>) -> Option<[u8; 4]> {
    match text {
        Some(t) => spec_color(hex_bytes(t@)),
        None => Some([255u8, 255u8, 255u8, 255u8]),
    }
}

/// Reads the colour of a record; opaque white where the record has none.
pub fn color_or_white(text: &Option<String>) -> (r: Result<[u8; 4], SkeletonError>)
    ensures
        match r {
            Ok(color) => spec_color_or_white(*text) == Some(color),
            Err(e) => spec_color_or_white(*text) is None && e@ == ErrorView::InvalidColor && (
            text matches Some(t) && hex_bytes(t@) is Some ==> e matches SkeletonError::InvalidColor(
                HexError::InvalidHexLength,
            )),
        },
{
    match text {
        Some(t) => match parse_color(t.as_str()) {
            Ok(color) => Ok(color),
            Err(e) => Err(SkeletonError::InvalidColor(e)),
        },
        None => Ok([255, 255, 255, 255]),
    }
}

impl Keyframe<[u8; 4]> for crate::format::SlotColorTimeline {
    open spec fn spec_curve(&self) -> Curve {
        spec_curve_or_linear(self.curve)
    }

    open spec fn spec_value(&self) -> Option<[u8; 4]> {
        spec_color_or_white(self.color)
    }

    fn curve(&self) -> (r: Curve) {
        curve_or_linear(&self.curve)
    }

    fn value(&self) -> (r: Result<[u8; 4], SkeletonError>) {
        color_or_white(&self.color)
    }
}

/// The keyframe that a record becomes: an invalid colour where its value
/// cannot be read, else an invalid curve where its curve cannot be used.
pub open spec fn spec_frame<T, U: Keyframe<T>>(record: U) -> Result<CurveTimeline<T>, ErrorView> {
    match record.spec_value() {
        Some(value) => if spec_curve_valid(record.spec_curve()) {
            Ok(CurveTimeline { time: record.spec_time(), curve: record.spec_curve(), value })
        } else {
            Err(ErrorView::InvalidCurveDescriptor)
        },
        None => Err(ErrorView::InvalidColor),
    }
}

/// [`spec_frame`] as a step of [`spec_collect`].
pub open spec fn spec_frame_step<T, U: Keyframe<T>>() -> spec_fn(Seq<CurveTimeline<T>>, U) -> Result<
    CurveTimeline<T>,
    ErrorView,
> {
    |done: Seq<CurveTimeline<T>>, record: U| spec_frame::<T, U>(record)
}

/// The keyframes that the records of a document become, or the error of the
/// first record that fails.
pub open spec fn spec_frames<T, U: Keyframe<T>>(records: Seq<U>) -> Result<
    Seq<CurveTimeline<T>>,
    ErrorView,
> {
    spec_collect(records, spec_frame_step::<T, U>())
}

/// Whether the curve can be used.
pub fn curve_valid(curve: &Curve) -> (r: bool)
    ensures
        r == spec_curve_valid(*curve),
{
    match curve {
        Curve::Bezier(cx1, _, cx2, _) => 0 <= cx1.micros && cx1.micros <= MICROS_PER_UNIT && 0
            <= cx2.micros && cx2.micros <= MICROS_PER_UNIT,
        _ => true,
    }
}

impl<T: Interpolate> CurveTimelines<T> {
    /// Converts the keyframe records of a document. The first record whose
    /// value cannot be read or whose curve cannot be used fails the whole list.
    pub fn from_json_vec<U: Keyframe<T>>(jtimelines: &Vec<U>) -> (r: Result<
        CurveTimelines<T>,
        SkeletonError,
    >)
        ensures
            match r {
                Ok(timelines) => spec_frames::<T, U>(jtimelines@) == Ok::<
                    Seq<CurveTimeline<T>>,
                    ErrorView,
                >(timelines@),
                Err(e) => spec_frames::<T, U>(jtimelines@) == Err::<
                    Seq<CurveTimeline<T>>,
                    ErrorView,
                >(e@),
            },
    {
        let mut curves: Vec<CurveTimeline<T>> = Vec::with_capacity(jtimelines.len());
        let mut i: usize = 0;
        while i < jtimelines.len()
            invariant
                i <= jtimelines@.len(),
                spec_frames::<T, U>(jtimelines@.take(i as int)) == Ok::<
                    Seq<CurveTimeline<T>>,
                    ErrorView,
                >(curves@),
            decreases jtimelines@.len() - i,
        {
            proof {
                lemma_collect_step(jtimelines@, spec_frame_step::<T, U>(), i as int);
            }
            let t = &jtimelines[i];
            let value = match t.value() {
                Ok(value) => value,
                Err(e) => {
                    proof {
                        lemma_collect_error(jtimelines@, spec_frame_step::<T, U>(), i + 1);
                    }
                    return Err(e);
                },
            };
            let curve = t.curve();
            if !curve_valid(&curve) {
                proof {
                    lemma_collect_error(jtimelines@, spec_frame_step::<T, U>(), i + 1);
                }
                return Err(SkeletonError::InvalidCurveDescriptor);
            }
            curves.push(CurveTimeline { time: t.time(), curve, value });
            i += 1;
        }
        assert(jtimelines@.take(i as int) =~= jtimelines@);
        Ok(CurveTimelines { timelines: curves })
    }

    /// Evaluates the timeline at the time `elapsed`.
    pub fn interpolate(&self, elapsed: Scalar) -> (r: Option<T>)
        ensures
            r == spec_at(self@, elapsed),
    {
        let place = locate(&self.timelines, elapsed);
        match place {
            Place::Nowhere => None,
            Place::At(i) => Some(self.timelines[i].value),
            Place::Between(i) => {
                let n = self.timelines.len();
                assert(i + 1 < n);
                let before = &self.timelines[i];
                let after = &self.timelines[i + 1];
                let t = elapsed.sub(before.time).ratio(after.time.sub(before.time));
                Some(interpolate(&before.curve, &before.value, &after.value, t))
            },
        }
    }
}

/// The timelines of one bone.
#[derive(Debug, Clone)]
pub struct BoneTimeline {
    /// What is added to the position.
    pub translate: CurveTimelines<[Scalar; 2]>,
    /// What is added to the rotation, in degrees.
    pub rotate: CurveTimelines<Scalar>,
    /// What the scale is multiplied by.
    pub scale: CurveTimelines<[Scalar; 2]>,
}

/// The keyframes of a [`BoneTimeline`].
pub struct BoneTimelineView {
    pub translate: Seq<CurveTimeline<[Scalar; 2]>>,
    pub rotate: Seq<CurveTimeline<Scalar>>,
    pub scale: Seq<CurveTimeline<[Scalar; 2]>>,
}

impl View for BoneTimeline {
    type V = BoneTimelineView;

    open spec fn view(&self) -> BoneTimelineView {
        BoneTimelineView {
            translate: self.translate@,
            rotate: self.rotate@,
            scale: self.scale@,
        }
    }
}

impl BoneTimelineView {
    /// What the timelines add to the setup pose of the bone at the time
    /// `elapsed`: no translation, no rotation and a scale of one where a
    /// timeline has no keyframe.
    pub open spec fn spec_srt(self, elapsed: Scalar) -> SRT {
        let position = spec_or(
            spec_at(self.translate, elapsed),
            [Scalar::spec_zero(), Scalar::spec_zero()],
        );
        let rotation = spec_or(spec_at(self.rotate, elapsed), Scalar::spec_zero());
        let scale = spec_or(spec_at(self.scale, elapsed), [Scalar::spec_one(), Scalar::spec_one()]);
        SRT::spec_new(scale[0], scale[1], rotation, position[0], position[1])
    }
}

impl BoneTimeline {
    /// The timelines that the records of a bone become, or the error of the
    /// first record that fails: the translations are taken first, then the
    /// rotations, then the scales.
    pub open spec fn spec_from_json(json: crate::format::BoneTimeline) -> Result<
        BoneTimelineView,
        ErrorView,
    > {
        match spec_frames::<[Scalar; 2], crate::format::BoneTranslateTimeline>(json.translate@) {
            Err(e) => Err(e),
            Ok(translate) => match spec_frames::<Scalar, crate::format::BoneRotateTimeline>(
                json.rotate@,
            ) {
                Err(e) => Err(e),
                Ok(rotate) => match spec_frames::<[Scalar; 2], crate::format::BoneScaleTimeline>(
                    json.scale@,
                ) {
                    Err(e) => Err(e),
                    Ok(scale) => Ok(BoneTimelineView { translate, rotate, scale }),
                },
            },
        }
    }

    /// Converts the timelines of a bone from the records of a document.
    pub fn from_json(json: &crate::format::BoneTimeline) -> (r: Result<
        BoneTimeline,
        SkeletonError,
    >)
        ensures
            match r {
                Ok(timeline) => BoneTimeline::spec_from_json(*json) == Ok::<
                    BoneTimelineView,
                    ErrorView,
                >(timeline@),
                Err(e) => BoneTimeline::spec_from_json(*json) == Err::<BoneTimelineView, ErrorView>(
                    e@,
                ),
            },
    {
        let translate = match CurveTimelines::from_json_vec(&json.translate) {
            Ok(t) => t,
            Err(e) => {
                return Err(e);
            },
        };
        let rotate = match CurveTimelines::from_json_vec(&json.rotate) {
            Ok(t) => t,
            Err(e) => {
                return Err(e);
            },
        };
        let scale = match CurveTimelines::from_json_vec(&json.scale) {
            Ok(t) => t,
            Err(e) => {
                return Err(e);
            },
        };
        Ok(BoneTimeline { translate, rotate, scale })
    }

    /// Evaluates the timelines at the time `elapsed` and returns what they
    /// add to the setup pose of the bone.
    pub fn srt(&self, elapsed: Scalar) -> (r: SRT)
        ensures
            r == self@.spec_srt(elapsed),
    {
        let position = match self.translate.interpolate(elapsed) {
            Some(p) => p,
            None => [Scalar::zero(), Scalar::zero()],
        };
        let rotation = match self.rotate.interpolate(elapsed) {
            Some(a) => a,
            None => Scalar::zero(),
        };
        let scale = match self.scale.interpolate(elapsed) {
            Some(s) => s,
            None => [Scalar::one(), Scalar::one()],
        };
        SRT::new(scale[0], scale[1], rotation, position[0], position[1])
    }
}

/// The timelines of one slot.
#[derive(Debug, Clone)]
pub struct SlotTimeline {
    /// The keyframes that switch the attachment.
    pub attachment: Vec<crate::format::SlotAttachmentTimeline>,
    /// The keyframes of the tint.
    pub color: CurveTimelines<[u8; 4]>,
}

/// The keyframes of a [`SlotTimeline`].
pub struct SlotTimelineView {
    pub attachment: Seq<crate::format::SlotAttachmentTimeline>,
    pub color: Seq<CurveTimeline<[u8; 4]>>,
}

impl View for SlotTimeline {
    type V = SlotTimelineView;

    open spec fn view(&self) -> SlotTimelineView {
        SlotTimelineView { attachment: self.attachment@, color: self.color@ }
    }
}

/// A name as text.
pub open spec fn spec_text(name: Option<String>) -> Option<Seq<char>> {
    match name {
        Some(n) => Some(n@),
        None => None,
    }
}

impl SlotTimelineView {
    /// The tint at the time `elapsed`; `base` where the timeline has no keyframe.
    pub open spec fn spec_color_at(self, elapsed: Scalar, base: [u8; 4]) -> [u8; 4] {
        spec_or(spec_at(self.color, elapsed), base)
    }

    /// The index of the attachment keyframe that governs at the time
    /// `elapsed`: the first one before the first keyframe, the last one at
    /// or after the last, else the earlier of the two keyframes around the
    /// time. `None` where there is no keyframe.
    pub open spec fn spec_attachment_index(self, elapsed: Scalar) -> Option<int> {
        let frames = self.attachment;
        if frames.len() == 0 {
            None
        } else if elapsed@ < frames[0].time@ {
            Some(0)
        } else if elapsed@ >= frames.last().time@ {
            Some(frames.len() - 1)
        } else {
            Some(spec_segment(frames, elapsed, 0))
        }
    }

    /// The attachment that the timeline shows at the time `elapsed`: `None`
    /// where there is no keyframe, `Some(None)` where the keyframe shows nothing.
    pub open spec fn spec_attachment_at(self, elapsed: Scalar) -> Option<Option<Seq<char>>> {
        match self.spec_attachment_index(elapsed) {
            Some(i) => Some(spec_text(self.attachment[i].name)),
            None => None,
        }
    }
}

/// Before its first keyframe an attachment timeline shows what the first
/// keyframe shows; at or after the last keyframe, and not before the first,
/// what the last keyframe shows.
pub proof fn lemma_attachment_ends(timeline: SlotTimelineView, e: Scalar)
    requires
        timeline.attachment.len() > 0,
    ensures
        e@ < timeline.attachment[0].time@ ==> timeline.spec_attachment_at(e) == Some(
            spec_text(timeline.attachment[0].name),
        ),
        e@ >= timeline.attachment[0].time@ && e@ >= timeline.attachment.last().time@
            ==> timeline.spec_attachment_at(e) == Some(spec_text(timeline.attachment.last().name)),
{
}

impl SlotTimeline {
    /// The timelines that the records of a slot become, or the error of the
    /// first colour keyframe that fails.
    pub open spec fn spec_from_json(json: crate::format::SlotTimeline) -> Result<
        SlotTimelineView,
        ErrorView,
    > {
        match spec_frames::<[u8; 4], crate::format::SlotColorTimeline>(json.color@) {
            Err(e) => Err(e),
            Ok(color) => Ok(SlotTimelineView { attachment: json.attachment@, color }),
        }
    }

    /// Converts the timelines of a slot from the records of a document.
    pub fn from_json(json: &crate::format::SlotTimeline) -> (r: Result<
        SlotTimeline,
        SkeletonError,
    >)
        ensures
            match r {
                Ok(timeline) => SlotTimeline::spec_from_json(*json) == Ok::<
                    SlotTimelineView,
                    ErrorView,
                >(timeline@),
                Err(e) => SlotTimeline::spec_from_json(*json) == Err::<SlotTimelineView, ErrorView>(
                    e@,
                ),
            },
    {
        let color = match CurveTimelines::from_json_vec(&json.color) {
            Ok(c) => c,
            Err(e) => {
                return Err(e);
            },
        };
        let mut attachment: Vec<crate::format::SlotAttachmentTimeline> = Vec::with_capacity(
            json.attachment.len(),
        );
        let mut i: usize = 0;
        while i < json.attachment.len()
            invariant
                i <= json.attachment@.len(),
                attachment@ == json.attachment@.take(i as int),
            decreases json.attachment@.len() - i,
        {
            let frame = &json.attachment[i];
            let name = match &frame.name {
                Some(n) => Some(n.clone()),
                None => None,
            };
            attachment.push(crate::format::SlotAttachmentTimeline { time: frame.time, name });
            assert(attachment@ =~= json.attachment@.take(i + 1));
            i += 1;
        }
        assert(json.attachment@.take(i as int) =~= json.attachment@);
        Ok(SlotTimeline { attachment, color })
    }

    /// The tint at the time `elapsed`; `base` where the timeline has no keyframe.
    pub fn interpolated_color(&self, elapsed: Scalar, base: [u8; 4]) -> (r: [u8; 4])
        ensures
            r == self@.spec_color_at(elapsed, base),
    {
        match self.color.interpolate(elapsed) {
            Some(c) => c,
            None => base,
        }
    }

    /// The attachment that the timeline shows at the time `elapsed`: `None`
    /// where there is no keyframe, `Some(None)` where the keyframe shows nothing.
    pub fn interpolate_attachment(&self, elapsed: Scalar) -> (r: Option<Option<&str>>)
        ensures
            match r {
                Some(Some(name)) => self@.spec_attachment_at(elapsed) == Some(Some(name@)),
                Some(None) => self@.spec_attachment_at(elapsed) == Some(None::<Seq<char>>),
                None => self@.spec_attachment_at(elapsed) is None,
            },
    {
        let place = locate(&self.attachment, elapsed);
        let i = match place {
            Place::Nowhere => {
                return None;
            },
            Place::At(i) => i,
            Place::Between(i) => i,
        };
        match &self.attachment[i].name {
            Some(n) => Some(Some(n.as_str())),
            None => Some(None),
        }
    }
}

} // verus!
