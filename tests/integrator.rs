use raytracer::path::{after_hit_test, after_scatter, PathAction, MAX_DEPTH};

// Runs the integrator's decisions on a path whose hit tests and scatters
// report the given outcomes; returns how it ends and how many scatters it made.
fn run(hit: impl Fn(u32) -> bool, scatter: impl Fn(u32) -> bool) -> (PathAction, u32) {
    let mut depth: u32 = 0;
    let mut scatters: u32 = 0;
    loop {
        match after_hit_test(depth, hit(depth)) {
            PathAction::Scatter => match after_scatter(depth, scatter(depth)) {
                PathAction::Trace { depth: next } => {
                    assert_eq!(next, depth + 1);
                    scatters += 1;
                    depth = next;
                }
                end => return (end, scatters),
            },
            end => return (end, scatters),
        }
    }
}

#[test]
fn miss_shows_background() {
    assert_eq!(after_hit_test(0, false), PathAction::Background);
    assert_eq!(after_hit_test(MAX_DEPTH, false), PathAction::Background);
}

#[test]
fn hit_below_limit_scatters() {
    assert_eq!(after_hit_test(0, true), PathAction::Scatter);
    assert_eq!(after_hit_test(MAX_DEPTH - 1, true), PathAction::Scatter);
}

#[test]
fn hit_at_limit_is_black() {
    assert_eq!(MAX_DEPTH, 50);
    assert_eq!(after_hit_test(MAX_DEPTH, true), PathAction::Black);
    assert_eq!(after_hit_test(MAX_DEPTH + 7, true), PathAction::Black);
}

#[test]
fn scatter_goes_one_deeper() {
    assert_eq!(after_scatter(3, true), PathAction::Trace { depth: 4 });
    assert_eq!(after_scatter(MAX_DEPTH - 1, true), PathAction::Trace { depth: MAX_DEPTH });
}

#[test]
fn absorption_is_black() {
    assert_eq!(after_scatter(0, false), PathAction::Black);
}

#[test]
fn mirror_cage_stops_after_max_depth_scatters() {
    assert_eq!(run(|_| true, |_| true), (PathAction::Black, MAX_DEPTH));
}

#[test]
fn path_escaping_after_three_bounces_sees_sky() {
    assert_eq!(run(|d| d < 3, |_| true), (PathAction::Background, 3));
}

#[test]
fn path_absorbed_on_second_hit_is_black() {
    assert_eq!(run(|_| true, |d| d == 0), (PathAction::Black, 1));
}
