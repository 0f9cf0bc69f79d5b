use my_lark::lifecycle::{
    ease_in_out, splash_pose, AppState, LifecycleAction, LifecycleController, SplashAnimation,
    Point,
};

fn rank(s: &AppState) -> u32 {
    match s {
        AppState::SplashStart => 0,
        AppState::UiSetup => 1,
        AppState::SplashAnimate => 2,
        AppState::Running => 3,
    }
}

#[test]
fn lifecycle_walks_forward_through_all_phases() {
    let mut c = LifecycleController::new();
    assert_eq!(c.phase, AppState::SplashStart);

    let a = c.advance(500);
    assert_eq!(c.phase, AppState::SplashStart);
    assert_eq!(a, LifecycleAction::Stay);

    let a = c.advance(600);
    assert_eq!(c.phase, AppState::UiSetup);
    assert_eq!(a, LifecycleAction::Stay);

    let a = c.advance(16);
    assert_eq!(c.phase, AppState::SplashAnimate);
    assert_eq!(a, LifecycleAction::PrepareUi);
    assert!(c.animation.is_some());

    let a = c.advance(1000);
    assert_eq!(c.phase, AppState::SplashAnimate);
    assert_eq!(a, LifecycleAction::Stay);

    let a = c.advance(1500);
    assert_eq!(c.phase, AppState::Running);
    assert_eq!(a, LifecycleAction::FinishSplash);
    assert!(c.animation.is_none());
}

#[test]
fn lifecycle_never_regresses_and_running_absorbs() {
    let mut c = LifecycleController::new();
    let deltas = [3u64, 900, 200, 1, 1, 5000, 10, 10_000, 1, 77];
    let mut prev = rank(&c.phase);
    for d in deltas {
        c.advance(d);
        let cur = rank(&c.phase);
        assert!(cur >= prev);
        prev = cur;
    }
    assert_eq!(c.phase, AppState::Running);
    for d in [0u64, 1, u64::MAX] {
        c.advance(d);
        assert_eq!(c.phase, AppState::Running);
    }
}

#[test]
fn one_shot_actions_fire_exactly_once() {
    let mut c = LifecycleController::new();
    let mut prepare = 0;
    let mut finish = 0;
    for _ in 0..100 {
        match c.advance(100) {
            LifecycleAction::PrepareUi => prepare += 1,
            LifecycleAction::FinishSplash => finish += 1,
            LifecycleAction::Stay => {},
        }
    }
    assert_eq!(prepare, 1);
    assert_eq!(finish, 1);
}

#[test]
fn ease_hits_exact_values() {
    assert_eq!(ease_in_out(0), 0);
    assert_eq!(ease_in_out(250), 62);
    assert_eq!(ease_in_out(500), 500);
    assert_eq!(ease_in_out(750), 938);
    assert_eq!(ease_in_out(1000), 1000);
}

#[test]
fn ease_is_monotone_over_whole_range() {
    let mut prev = 0u64;
    for t in 0..=1000u64 {
        let e = ease_in_out(t);
        assert!(e >= prev);
        assert!(e <= 1000);
        prev = e;
    }
}

fn armed(progress_ms: u64) -> SplashAnimation {
    SplashAnimation {
        start_pos: Point { x: 0, y: 0 },
        end_pos: Point { x: -550, y: 230 },
        progress_ms,
        duration_ms: 2000,
    }
}

#[test]
fn pose_reproduces_endpoints_exactly() {
    let start = splash_pose(&armed(0));
    assert_eq!(start.pos, Point { x: 0, y: 0 });
    assert_eq!(start.scale_permille, 1000);
    assert_eq!(start.rotation_permille, 0);

    let end = splash_pose(&armed(2000));
    assert_eq!(end.pos, Point { x: -550, y: 230 });
    assert_eq!(end.scale_permille, 300);
    assert_eq!(end.rotation_permille, 1000);

    let past_end = splash_pose(&armed(9999));
    assert_eq!(past_end.pos, Point { x: -550, y: 230 });
}

#[test]
fn scale_shrinks_and_rotation_advances() {
    let mut prev_scale = u64::MAX;
    let mut prev_rot = 0u64;
    for p in (0..=2000u64).step_by(50) {
        let pose = splash_pose(&armed(p));
        assert!(pose.scale_permille <= prev_scale);
        assert!(pose.rotation_permille >= prev_rot);
        assert!(pose.scale_permille >= 300 && pose.scale_permille <= 1000);
        prev_scale = pose.scale_permille;
        prev_rot = pose.rotation_permille;
    }
}
