//! The startup lifecycle state machine: a strictly forward-moving walk
//! through the phases `SplashStart -> UiSetup -> SplashAnimate -> Running`,
//! together with the timed splash animation that the `SplashAnimate` phase
//! drives (ease-in-out progress along a quadratic Bezier path).
//!
//! All timing is in integer milliseconds and all interpolation is in
//! integer fixed point: a progress or easing value is a number of
//! permille (thousandths), so `0` is the start of the animation and
//! `1000` is its end.

use vstd::arithmetic::div_mod::{lemma_div_is_ordered, lemma_div_multiples_vanish};
use vstd::prelude::*;

verus! {

/// Milliseconds the splash image is held before UI preparation starts.
pub const SPLASH_HOLD_MS: u64 = 1000;

/// Milliseconds the outward splash animation lasts.
pub const SPLASH_ANIM_MS: u64 = 2000;

/// Fixed-point denominator: fractions are counted in permille.
pub const PERMILLE: u64 = 1000;

/// The coarse phase the application process is in.
#[derive(Debug, Clone, Copy, PartialEq, Eq, Structural)]
pub enum AppState {
    SplashStart,
    UiSetup,
    SplashAnimate,
    Running,
}

impl Default for AppState {
    fn default() -> (r: Self)
        ensures
            r == AppState::SplashStart,
    {
        AppState::SplashStart
    }
}

/// Position of a phase in the fixed forward order of the lifecycle.
pub open spec fn phase_rank(s: AppState) -> int {
    match s {
        AppState::SplashStart => 0,
        AppState::UiSetup => 1,
        AppState::SplashAnimate => 2,
        AppState::Running => 3,
    }
}

/// A point of the splash path, in integer screen units.
#[derive(Debug, Clone, Copy, PartialEq, Eq, Structural)]
pub struct Point {
    pub x: i64,
    pub y: i64,
}

/// The transient splash visual; `is_animating` records whether its
/// outward animation has been armed.
#[derive(Debug, Clone, Copy, PartialEq, Eq, Structural)]
pub struct SplashScreen {
    pub is_animating: bool,
}

/// The armed outward animation of the splash visual.
#[derive(Debug, Clone, Copy, PartialEq, Eq, Structural)]
pub struct SplashAnimation {
    pub start_pos: Point,
    pub end_pos: Point,
    pub progress_ms: u64,
    pub duration_ms: u64,
}

impl SplashAnimation {
    /// Coordinate and duration bounds under which every interpolation
    /// step below is exact and free of overflow.
    pub open spec fn wf(self) -> bool {
        &&& 0 < self.duration_ms <= 1_000_000_000
        &&& -1_000_000 <= self.start_pos.x <= 1_000_000
        &&& -1_000_000 <= self.start_pos.y <= 1_000_000
        &&& -1_000_000 <= self.end_pos.x <= 1_000_000
        &&& -1_000_000 <= self.end_pos.y <= 1_000_000
    }
}

/// The one-shot side effect a lifecycle step asks the frame driver to
/// perform.  Each is returned exactly once per process lifetime, on the
/// transition that triggers it.
#[derive(Debug, Clone, Copy, PartialEq, Eq, Structural)]
pub enum LifecycleAction {
    /// Nothing beyond drawing the current state.
    Stay,
    /// Tear down splash-only resources, run the one-time UI setup and
    /// arm the outward animation.
    PrepareUi,
    /// Discard the transient splash visual.
    FinishSplash,
}

/// The lifecycle controller: the current phase, how long it has been
/// held, and the armed splash animation while one exists.
#[derive(Debug, Clone, Copy, PartialEq, Eq)]
pub struct LifecycleController {
    pub phase: AppState,
    pub phase_elapsed_ms: u64,
    pub animation: Option<SplashAnimation>,
}

/// Addition on elapsed milliseconds that sticks at the largest
/// representable value instead of wrapping.
pub open spec fn sat_add_u64(a: u64, b: u64) -> u64 {
    if a + b <= u64::MAX {
        (a + b) as u64
    } else {
        u64::MAX
    }
}

/// The animation armed on entry to `SplashAnimate`: the splash moves
/// from the screen centre to the upper-left corner area.
pub open spec fn spec_armed_animation() -> SplashAnimation {
    (SplashAnimation {
        start_pos: (Point { x: 0i64, y: 0i64 }),
        end_pos: (Point { x: -550i64, y: 230i64 }),
        progress_ms: 0,
        duration_ms: SPLASH_ANIM_MS,
    })
}

/// One frame step of the lifecycle machine, as a mathematical function
/// from the pre-state and the frame's elapsed time to the post-state
/// and the action owed to the frame driver.
pub open spec fn spec_advance(c: LifecycleController, delta_ms: u64) -> (LifecycleController,
    LifecycleAction) {
    match c.phase {
        AppState::SplashStart => {
            let held = sat_add_u64(c.phase_elapsed_ms, delta_ms);
            if held > SPLASH_HOLD_MS {
                (
                    (LifecycleController {
                        phase: AppState::UiSetup,
                        phase_elapsed_ms: 0,
                        animation: None,
                    }),
                    LifecycleAction::Stay,
                )
            } else {
                ((LifecycleController { phase_elapsed_ms: held, ..c }), LifecycleAction::Stay)
            }
        },
        AppState::UiSetup => (
            (LifecycleController {
                phase: AppState::SplashAnimate,
                phase_elapsed_ms: 0,
                animation: Some(spec_armed_animation()),
            }),
            LifecycleAction::PrepareUi,
        ),
        AppState::SplashAnimate => match c.animation {
            Some(anim) => {
                let progress = sat_add_u64(anim.progress_ms, delta_ms);
                if progress >= anim.duration_ms {
                    (
                        (LifecycleController {
                            phase: AppState::Running,
                            phase_elapsed_ms: 0,
                            animation: None,
                        }),
                        LifecycleAction::FinishSplash,
                    )
                } else {
                    (
                        (LifecycleController {
                            animation: Some(SplashAnimation { progress_ms: progress, ..anim }),
                            ..c
                        }),
                        LifecycleAction::Stay,
                    )
                }
            },
            None => (
                (LifecycleController {
                    phase: AppState::Running,
                    phase_elapsed_ms: 0,
                    animation: None,
                }),
                LifecycleAction::FinishSplash,
            ),
        },
        AppState::Running => (
            (LifecycleController { phase_elapsed_ms: sat_add_u64(c.phase_elapsed_ms, delta_ms), ..c
            }),
            LifecycleAction::Stay,
        ),
    }
}

impl LifecycleController {
    /// A phase other than `SplashAnimate` carries no animation; in
    /// `SplashAnimate` a well-formed one is armed.
    pub open spec fn wf(self) -> bool {
        match self.animation {
            Some(anim) => self.phase == AppState::SplashAnimate && anim.wf(),
            None => self.phase != AppState::SplashAnimate,
        }
    }

    pub fn new() -> (r: Self)
        ensures
            r.phase == AppState::SplashStart,
            r.phase_elapsed_ms == 0,
            r.animation is None,
            r.wf(),
    {
        LifecycleController {
            phase: AppState::SplashStart,
            phase_elapsed_ms: 0,
            animation: None,
        }
    }

    /// Advance the machine by one frame of `delta_ms` elapsed
    /// milliseconds and return the action owed to the frame driver.
    pub fn advance(&mut self, delta_ms: u64) -> (a: LifecycleAction)
        requires
            old(self).wf(),
        ensures
            *final(self) == spec_advance(*old(self), delta_ms).0,
            a == spec_advance(*old(self), delta_ms).1,
            final(self).wf(),
            phase_rank(final(self).phase) >= phase_rank(old(self).phase),
    {
        match self.phase {
            AppState::SplashStart => {
                let held = sat_add_exec(self.phase_elapsed_ms, delta_ms);
                if held > SPLASH_HOLD_MS {
                    self.phase = AppState::UiSetup;
                    self.phase_elapsed_ms = 0;
                } else {
                    self.phase_elapsed_ms = held;
                }
                LifecycleAction::Stay
            },
            AppState::UiSetup => {
                self.phase = AppState::SplashAnimate;
                self.phase_elapsed_ms = 0;
                self.animation = Some(
                    SplashAnimation {
                        start_pos: Point { x: 0, y: 0 },
                        end_pos: Point { x: -550, y: 230 },
                        progress_ms: 0,
                        duration_ms: SPLASH_ANIM_MS,
                    },
                );
                LifecycleAction::PrepareUi
            },
            AppState::SplashAnimate => match self.animation {
                Some(anim) => {
                    let progress = sat_add_exec(anim.progress_ms, delta_ms);
                    if progress >= anim.duration_ms {
                        self.phase = AppState::Running;
                        self.phase_elapsed_ms = 0;
                        self.animation = None;
                        LifecycleAction::FinishSplash
                    } else {
                        self.animation = Some(SplashAnimation { progress_ms: progress, ..anim });
                        LifecycleAction::Stay
                    }
                },
                None => {
                    self.phase = AppState::Running;
                    self.phase_elapsed_ms = 0;
                    self.animation = None;
                    LifecycleAction::FinishSplash
                },
            },
            AppState::Running => {
                self.phase_elapsed_ms = sat_add_exec(self.phase_elapsed_ms, delta_ms);
                LifecycleAction::Stay
            },
        }
    }
}

fn sat_add_exec(a: u64, b: u64) -> (r: u64)
    ensures
        r == sat_add_u64(a, b),
{
    if a <= u64::MAX - b {
        a + b
    } else {
        u64::MAX
    }
}

/// The lifecycle never moves backward in a single step, a step that
/// changes the phase moves it strictly forward, and `Running` absorbs.
pub proof fn lemma_advance_never_regresses(c: LifecycleController, delta_ms: u64)
    ensures
        phase_rank(spec_advance(c, delta_ms).0.phase) >= phase_rank(c.phase),
        spec_advance(c, delta_ms).0.phase != c.phase ==> phase_rank(
            spec_advance(c, delta_ms).0.phase,
        ) > phase_rank(c.phase),
        c.phase == AppState::Running ==> spec_advance(c, delta_ms).0.phase == AppState::Running,
{
}

/// The machine after a whole sequence of frame steps.
pub open spec fn spec_run(c: LifecycleController, deltas: Seq<u64>) -> LifecycleController
    decreases deltas.len(),
{
    if deltas.len() == 0 {
        c
    } else {
        spec_run(spec_advance(c, deltas[0]).0, deltas.drop_first())
    }
}

/// Over any sequence of frame steps the observed phase sequence is a
/// non-decreasing walk through the phase order, and once `Running` is
/// reached no further step leaves it.
pub proof fn lemma_run_never_regresses(c: LifecycleController, deltas: Seq<u64>)
    ensures
        phase_rank(spec_run(c, deltas).phase) >= phase_rank(c.phase),
        c.phase == AppState::Running ==> spec_run(c, deltas).phase == AppState::Running,
    decreases deltas.len(),
{
    if deltas.len() > 0 {
        lemma_advance_never_regresses(c, deltas[0]);
        lemma_run_never_regresses(spec_advance(c, deltas[0]).0, deltas.drop_first());
    }
}

/// Running a walk piecewise is the same as running it whole.
proof fn lemma_run_append(c: LifecycleController, a: Seq<u64>, b: Seq<u64>)
    ensures
        spec_run(c, a + b) == spec_run(spec_run(c, a), b),
    decreases a.len(),
{
    if a.len() == 0 {
        assert(a + b =~= b);
    } else {
        let c1 = spec_advance(c, a[0]).0;
        assert((a + b).drop_first() =~= a.drop_first() + b);
        lemma_run_append(c1, a.drop_first(), b);
    }
}

/// Along any walk the phase sequence is non-decreasing: the phase
/// after a longer prefix of the walk never ranks below the phase after
/// a shorter one.  With single steps moving strictly forward on every
/// phase change, no phase recurs after being left.
pub proof fn lemma_walk_is_non_decreasing(c: LifecycleController, deltas: Seq<u64>, i: int, j: int)
    requires
        0 <= i <= j <= deltas.len(),
    ensures
        phase_rank(spec_run(c, deltas.take(j)).phase) >= phase_rank(
            spec_run(c, deltas.take(i)).phase,
        ),
{
    let mid = spec_run(c, deltas.take(i));
    assert(deltas.take(j) =~= deltas.take(i) + deltas.take(j).skip(i));
    lemma_run_append(c, deltas.take(i), deltas.take(j).skip(i));
    lemma_run_never_regresses(mid, deltas.take(j).skip(i));
}

/// Eased progress: a cubic ease-in-out curve on permille fractions.
/// The first half is `4 t^3`, the second half its point reflection.
pub open spec fn spec_ease(t: int) -> int
    recommends
        0 <= t <= 1000,
{
    if t < 500 {
        (4 * t * t * t) / 1_000_000
    } else {
        let f = 2000 - 2 * t;
        1000 - (f * f * f) / 2_000_000
    }
}

/// Ease-in-out interpolation on permille fractions.
pub fn ease_in_out(t: u64) -> (e: u64)
    requires
        t <= 1000,
    ensures
        e == spec_ease(t as int),
        e <= 1000,
{
    proof {
        lemma_ease_range(t as int);
    }
    if t < 500 {
        proof {
            assert(4 * t < 2000);
            assert(4 * t * t < 1_000_000) by (nonlinear_arith)
                requires
                    t < 500,
            ;
            assert(4 * t * t * t < 500_000_000) by (nonlinear_arith)
                requires
                    t < 500 && 4 * t * t < 1_000_000,
            ;
        }
        (4 * t * t * t) / 1_000_000
    } else {
        let f: u64 = 2000 - 2 * t;
        proof {
            assert(f * f <= 1_000_000) by (nonlinear_arith)
                requires
                    f <= 1000,
            ;
            assert(f * f * f <= 1_000_000_000) by (nonlinear_arith)
                requires
                    f <= 1000 && f * f <= 1_000_000,
            ;
            assert((f * f * f) / 2_000_000 <= 500) by {
                lemma_div_is_ordered(f * f * f, 1_000_000_000, 2_000_000);
            }
        }
        1000 - (f * f * f) / 2_000_000
    }
}

/// The eased fraction stays within the permille range, and hits its
/// endpoints exactly.
pub proof fn lemma_ease_range(t: int)
    requires
        0 <= t <= 1000,
    ensures
        0 <= spec_ease(t) <= 1000,
        t == 0 ==> spec_ease(t) == 0,
        t == 1000 ==> spec_ease(t) == 1000,
{
    if t < 500 {
        assert(0 <= 4 * t * t * t <= 1_000_000_000) by (nonlinear_arith)
            requires
                0 <= t < 500,
        ;
        lemma_div_is_ordered(4 * t * t * t, 1_000_000_000, 1_000_000);
        lemma_div_is_ordered(0, 4 * t * t * t, 1_000_000);
        assert(0int / 1_000_000 == 0);
        if t == 0 {
            assert(4 * t * t * t == 0) by (nonlinear_arith)
                requires
                    t == 0,
            ;
        }
    } else {
        let f = 2000 - 2 * t;
        assert(0 <= f * f * f <= 1_000_000_000) by (nonlinear_arith)
            requires
                0 <= f <= 1000,
        ;
        lemma_div_is_ordered(f * f * f, 1_000_000_000, 2_000_000);
        lemma_div_is_ordered(0, f * f * f, 2_000_000);
        if t == 1000 {
            assert(f == 0);
            assert(f * f * f == 0) by (nonlinear_arith)
                requires
                    f == 0,
            ;
            assert(0int / 2_000_000 == 0);
        }
    }
}

/// The eased fraction is monotone: later progress never eases to an
/// earlier fraction.
pub proof fn lemma_ease_monotonic(t1: int, t2: int)
    requires
        0 <= t1 <= t2 <= 1000,
    ensures
        spec_ease(t1) <= spec_ease(t2),
{
    lemma_ease_range(t1);
    lemma_ease_range(t2);
    if t2 < 500 {
        assert(4 * t1 * t1 * t1 <= 4 * t2 * t2 * t2) by (nonlinear_arith)
            requires
                0 <= t1 <= t2,
        ;
        lemma_div_is_ordered(4 * t1 * t1 * t1, 4 * t2 * t2 * t2, 1_000_000);
    } else if t1 >= 500 {
        let f1 = 2000 - 2 * t1;
        let f2 = 2000 - 2 * t2;
        assert(f2 * f2 * f2 <= f1 * f1 * f1) by (nonlinear_arith)
            requires
                0 <= f2 <= f1,
        ;
        lemma_div_is_ordered(f2 * f2 * f2, f1 * f1 * f1, 2_000_000);
    } else {
        // Across the midpoint: the first half stays under 500 permille,
        // the second half stays at or above it.
        assert(4 * t1 * t1 * t1 <= 497_005_996) by (nonlinear_arith)
            requires
                0 <= t1 < 500,
        ;
        lemma_div_is_ordered(4 * t1 * t1 * t1, 497_005_996, 1_000_000);
        let f2 = 2000 - 2 * t2;
        assert(f2 * f2 * f2 <= 1_000_000_000) by (nonlinear_arith)
            requires
                0 <= f2 <= 1000,
        ;
        lemma_div_is_ordered(f2 * f2 * f2, 1_000_000_000, 2_000_000);
    }
}

/// Integer division that rounds toward zero, matching hardware signed
/// division on the magnitudes used here.
pub open spec fn spec_trunc_div(a: int, b: int) -> int
    recommends
        b > 0,
{
    if a >= 0 {
        a / b
    } else {
        -((-a) / b)
    }
}

/// One coordinate of the quadratic Bezier point at eased fraction `e`
/// permille: `(a0 (1000-e)^2 + 2 a1 (1000-e) e + a2 e^2) / 1000^2`,
/// rounded toward zero.
pub open spec fn spec_bezier_coord(a0: int, a1: int, a2: int, e: int) -> int
    recommends
        0 <= e <= 1000,
{
    spec_trunc_div(a0 * (1000 - e) * (1000 - e) + 2 * a1 * (1000 - e) * e + a2 * e * e, 1_000_000)
}

fn bezier_coord(a0: i64, a1: i64, a2: i64, e: u64) -> (r: i64)
    requires
        -2_000_000 <= a0 <= 2_000_000,
        -2_000_000 <= a1 <= 2_000_000,
        -2_000_000 <= a2 <= 2_000_000,
        e <= 1000,
    ensures
        r == spec_bezier_coord(a0 as int, a1 as int, a2 as int, e as int),
{
    let u: i128 = (1000 - e) as i128;
    let v: i128 = e as i128;
    let b0: i128 = a0 as i128;
    let b1: i128 = a1 as i128;
    let b2: i128 = a2 as i128;
    proof {
        assert(-2_000_000_000 <= b0 * u <= 2_000_000_000 && -2_000_000_000_000 <= b0 * u * u
            <= 2_000_000_000_000) by (nonlinear_arith)
            requires
                0 <= u <= 1000 && -2_000_000 <= b0 <= 2_000_000,
        ;
        assert(-4_000_000_000 <= 2 * b1 * u <= 4_000_000_000 && -4_000_000_000_000 <= 2 * b1 * u
            * v <= 4_000_000_000_000) by (nonlinear_arith)
            requires
                0 <= u <= 1000 && 0 <= v <= 1000 && -2_000_000 <= b1 <= 2_000_000,
        ;
        assert(-2_000_000_000 <= b2 * v <= 2_000_000_000 && -2_000_000_000_000 <= b2 * v * v
            <= 2_000_000_000_000) by (nonlinear_arith)
            requires
                0 <= v <= 1000 && -2_000_000 <= b2 <= 2_000_000,
        ;
    }
    let num: i128 = b0 * u * u + 2 * b1 * u * v + b2 * v * v;
    if num >= 0 {
        let q: u128 = (num as u128) / 1_000_000;
        proof {
            lemma_div_is_ordered(num as int, 8_000_000_000_000, 1_000_000);
            lemma_div_is_ordered(0, num as int, 1_000_000);
            assert(0int / 1_000_000 == 0);
        }
        q as i64
    } else {
        let m: u128 = (-num) as u128;
        let q: u128 = m / 1_000_000;
        proof {
            lemma_div_is_ordered(m as int, 8_000_000_000_000, 1_000_000);
            lemma_div_is_ordered(0, m as int, 1_000_000);
            assert(0int / 1_000_000 == 0);
        }
        -(q as i64)
    }
}

/// At fraction 0 the Bezier coordinate is the start coordinate exactly;
/// at fraction 1000 it is the end coordinate exactly.
pub proof fn lemma_bezier_endpoints(a0: int, a1: int, a2: int)
    ensures
        spec_bezier_coord(a0, a1, a2, 0) == a0,
        spec_bezier_coord(a0, a1, a2, 1000) == a2,
{
    assert(a0 * 1000 * 1000 + 2 * a1 * 1000 * 0 + a2 * 0 * 0 == a0 * 1_000_000) by (nonlinear_arith);
    assert(a0 * 0 * 0 + 2 * a1 * 0 * 1000 + a2 * 1000 * 1000 == a2 * 1_000_000) by (nonlinear_arith);
    lemma_trunc_div_exact(a0, 1_000_000);
    lemma_trunc_div_exact(a2, 1_000_000);
}

proof fn lemma_trunc_div_exact(a: int, b: int)
    requires
        b > 0,
    ensures
        spec_trunc_div(a * b, b) == a,
{
    if a >= 0 {
        assert(a * b == b * a) by (nonlinear_arith);
        lemma_div_multiples_vanish(a, b);
    } else {
        assert(-(a * b) == b * (-a)) by (nonlinear_arith);
        lemma_div_multiples_vanish(-a, b);
    }
}

/// The splash visual's pose at one instant: its Bezier position, its
/// scale in permille of the full size, and its rotation in permille of
/// a half turn.
#[derive(Debug, Clone, Copy, PartialEq, Eq, Structural)]
pub struct SplashPose {
    pub pos: Point,
    pub scale_permille: u64,
    pub rotation_permille: u64,
}

/// Raw progress of an armed animation as a permille fraction, capped
/// at 1000 once the duration has elapsed.
pub open spec fn spec_progress_permille(anim: SplashAnimation) -> int
    recommends
        anim.wf(),
{
    if anim.progress_ms >= anim.duration_ms {
        1000
    } else {
        (anim.progress_ms * 1000) / (anim.duration_ms as int)
    }
}

/// Scale in permille at eased fraction `e`: shrinks linearly from full
/// size to 300 permille.
pub open spec fn spec_scale_permille(e: int) -> int
    recommends
        0 <= e <= 1000,
{
    1000 - (700 * e) / 1000
}

/// The control point of the splash path: above the end point, level
/// with the start point horizontally.
pub open spec fn spec_control_point(anim: SplashAnimation) -> Point {
    (Point { x: anim.start_pos.x, y: (anim.end_pos.y + 60) as i64 })
}

/// The pose of an armed animation: eased Bezier position, shrinking
/// scale, advancing rotation.
pub open spec fn spec_splash_pose(anim: SplashAnimation) -> SplashPose
    recommends
        anim.wf(),
{
    let e = spec_ease(spec_progress_permille(anim));
    (SplashPose {
        pos: (Point {
            x: spec_bezier_coord(
                anim.start_pos.x as int,
                spec_control_point(anim).x as int,
                anim.end_pos.x as int,
                e,
            ) as i64,
            y: spec_bezier_coord(
                anim.start_pos.y as int,
                spec_control_point(anim).y as int,
                anim.end_pos.y as int,
                e,
            ) as i64,
        }),
        scale_permille: spec_scale_permille(e) as u64,
        rotation_permille: e as u64,
    })
}

fn progress_permille(anim: &SplashAnimation) -> (t: u64)
    requires
        anim.wf(),
    ensures
        t == spec_progress_permille(*anim),
        t <= 1000,
{
    if anim.progress_ms >= anim.duration_ms {
        1000
    } else {
        let t = (anim.progress_ms * 1000) / anim.duration_ms;
        proof {
            assert(anim.progress_ms * 1000 <= anim.duration_ms * 1000) by (nonlinear_arith)
                requires
                    anim.progress_ms <= anim.duration_ms,
            ;
            lemma_div_is_ordered(
                anim.progress_ms * 1000,
                anim.duration_ms * 1000,
                anim.duration_ms as int,
            );
            lemma_div_multiples_vanish(1000, anim.duration_ms as int);
        }
        t
    }
}

/// The pose of the splash visual for the current progress of `anim`.
pub fn splash_pose(anim: &SplashAnimation) -> (pose: SplashPose)
    requires
        anim.wf(),
    ensures
        pose == spec_splash_pose(*anim),
{
    let t = progress_permille(anim);
    let e = ease_in_out(t);
    let cx: i64 = anim.start_pos.x;
    let cy: i64 = anim.end_pos.y + 60;
    let x = bezier_coord(anim.start_pos.x, cx, anim.end_pos.x, e);
    let y = bezier_coord(anim.start_pos.y, cy, anim.end_pos.y, e);
    let scale: u64 = 1000 - (700 * e) / 1000;
    proof {
        lemma_div_is_ordered(700 * e as int, 700_000, 1000);
    }
    SplashPose { pos: Point { x, y }, scale_permille: scale, rotation_permille: e }
}

/// At progress 0 the pose reproduces the start point exactly at full
/// scale and no rotation; once the duration has elapsed it reproduces
/// the end point exactly.
pub proof fn lemma_pose_endpoints(anim: SplashAnimation)
    requires
        anim.wf(),
    ensures
        anim.progress_ms == 0 ==> spec_splash_pose(anim).pos == anim.start_pos
            && spec_splash_pose(anim).scale_permille == 1000 && spec_splash_pose(
            anim,
        ).rotation_permille == 0,
        anim.progress_ms >= anim.duration_ms ==> spec_splash_pose(anim).pos == anim.end_pos
            && spec_splash_pose(anim).scale_permille == 300 && spec_splash_pose(
            anim,
        ).rotation_permille == 1000,
{
    if anim.progress_ms == 0 {
        assert(spec_progress_permille(anim) == 0) by {
            assert((0 as int) * 1000 == 0) by (nonlinear_arith);
            assert(0int / (anim.duration_ms as int) == 0);
        }
        lemma_ease_range(0);
        lemma_bezier_endpoints(
            anim.start_pos.x as int,
            spec_control_point(anim).x as int,
            anim.end_pos.x as int,
        );
        lemma_bezier_endpoints(
            anim.start_pos.y as int,
            spec_control_point(anim).y as int,
            anim.end_pos.y as int,
        );
    }
    if anim.progress_ms >= anim.duration_ms {
        lemma_ease_range(1000);
        lemma_bezier_endpoints(
            anim.start_pos.x as int,
            spec_control_point(anim).x as int,
            anim.end_pos.x as int,
        );
        lemma_bezier_endpoints(
            anim.start_pos.y as int,
            spec_control_point(anim).y as int,
            anim.end_pos.y as int,
        );
    }
}

/// Under the eased progress curve the scale is monotone non-increasing
/// and the rotation monotone non-decreasing in raw progress.
pub proof fn lemma_pose_monotonic(t1: int, t2: int)
    requires
        0 <= t1 <= t2 <= 1000,
    ensures
        spec_scale_permille(spec_ease(t1)) >= spec_scale_permille(spec_ease(t2)),
        spec_ease(t1) <= spec_ease(t2),
{
    lemma_ease_monotonic(t1, t2);
    lemma_ease_range(t1);
    lemma_ease_range(t2);
    lemma_div_is_ordered(700 * spec_ease(t1), 700 * spec_ease(t2), 1000);
}

} // verus!
