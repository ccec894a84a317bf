use atoma::entity::{Force, MovingComponent};
use atoma::fixed::{ceil_sqrt_u64, saturate, trunc_div};
use atoma::vector::Vec2;

#[test]
fn square_roots_round_up() {
    assert_eq!(ceil_sqrt_u64(0), 0);
    assert_eq!(ceil_sqrt_u64(1), 1);
    assert_eq!(ceil_sqrt_u64(2), 2);
    assert_eq!(ceil_sqrt_u64(4), 2);
    assert_eq!(ceil_sqrt_u64(5), 3);
    assert_eq!(ceil_sqrt_u64(2_000_000), 1415);
    assert_eq!(ceil_sqrt_u64(u64::MAX), 1 << 32);
}

#[test]
fn helpers_clamp_and_round_toward_zero() {
    assert_eq!(saturate(i64::MAX), i32::MAX);
    assert_eq!(saturate(i64::MIN), i32::MIN);
    assert_eq!(saturate(-7), -7);
    assert_eq!(trunc_div(-1999, 1000), -1);
    assert_eq!(trunc_div(1999, 1000), 1);
}

#[test]
fn vectors_add_and_saturate() {
    assert_eq!(Vec2::new(1, 2).plus(Vec2::new(3, -5)), Vec2::new(4, -3));
    assert_eq!(Vec2::new(i32::MAX, 0).plus(Vec2::new(1, 0)), Vec2::new(i32::MAX, 0));
    assert_eq!(Vec2::new(i32::MIN, 0).minus(Vec2::new(1, 0)), Vec2::new(i32::MIN, 0));
    assert_eq!(Vec2::from_pixels(3, -2), Vec2::new(3000, -2000));
    assert_eq!(Vec2::new(3999, -2999).to_pixels(), Vec2::new(3, -2));
    assert_eq!(Vec2::new(12_500, 0).on_screen(Vec2::new(10, 0)), Vec2::new(2, 0));
}

#[test]
fn vectors_are_rescaled() {
    assert_eq!(Vec2::new(3000, 4000).magnitude2(), 25_000_000);
    assert_eq!(Vec2::new(3000, 4000).magnitude(), 5000);
    assert_eq!(Vec2::new(3000, 4000).normalize_to(1000), Vec2::new(600, 800));
    assert_eq!(Vec2::new(1000, -1000).normalize(), Vec2::new(706, -706));
    assert_eq!(Vec2::new(0, 0).normalize(), Vec2::new(0, 0));
    assert_eq!(Vec2::new(-10, 0).scaled(7, 2), Vec2::new(-35, 0));
    assert_eq!(Vec2::new(-5, 5).scaled(1, 2), Vec2::new(-2, 2));
    assert_eq!(Vec2::new(i32::MIN, i32::MIN).magnitude(), 3_037_000_500);
}

#[test]
fn force_counts_down_and_stops_at_zero() {
    let mut force = Force::new(Vec2::new(1000, 0), 2);
    assert!(force.has_magnitude());
    assert!(!force.depleeted());
    assert!(!force.update());
    assert!(!force.update());
    assert!(force.depleeted());
    assert!(!force.has_magnitude());
    assert!(force.update());
    assert!(force.depleeted());
    assert_eq!(force.force(), Vec2::new(1000, 0));
}

#[test]
fn weak_force_has_no_magnitude() {
    assert!(!Force::new(Vec2::new(10, 0), 5).has_magnitude());
    assert!(Force::new(Vec2::new(11, 0), 5).has_magnitude());
    assert!(!Force::new(Vec2::new(11, 0), 0).has_magnitude());
}

#[test]
fn thrust_moves_the_body_at_most_at_full_speed() {
    let mut body = MovingComponent::new(5000, 700, 5000);
    body.set_thrust(Force::new(Vec2::new(1000, 0), 2));
    assert!(body.update(&[], true));
    assert_eq!(body.pos(), Vec2::new(700, 0));
    // the thrust has run out by the second tick
    assert!(!body.update(&[], true));
    assert_eq!(body.pos(), Vec2::new(700, 0));
    body.reset_pos();
    assert_eq!(body.pos(), Vec2::new(700, 0));
}

#[test]
fn diagonal_thrust_gives_exact_step() {
    let mut body = MovingComponent::new(5000, 700, 5000);
    body.set_thrust(Force::new(Vec2::new(1000, -1000).normalize(), 2));
    assert!(body.update(&[], true));
    assert_eq!(body.pos(), Vec2::new(494, -494));
}

#[test]
fn reset_pos_goes_back_to_the_checkpoint() {
    let mut body = MovingComponent::new(5000, 700, 5000);
    body.set_pos(Vec2::new(10_000, 20_000));
    body.update(&[Force::new(Vec2::new(0, 5000), 3)], false);
    assert_eq!(body.pos(), Vec2::new(10_000, 20_700));
    body.reset_pos();
    assert_eq!(body.pos(), Vec2::new(10_000, 20_000));
}

#[test]
fn huge_force_cannot_exceed_max_speed() {
    let mut body = MovingComponent::new(5000, 700, 5000);
    body.update(&[Force::new(Vec2::new(i32::MAX, i32::MAX), 5)], true);
    let step = body.pos();
    assert_eq!(step, Vec2::new(494, 494));
    assert!(step.magnitude2() <= 700 * 700);
}

#[test]
fn forces_at_the_limit_do_not_add_up() {
    let forces = [
        Force::new(Vec2::new(5000, 0), 3),
        Force::new(Vec2::new(0, 5000), 3),
        Force::new(Vec2::new(5000, 0), 3),
    ];
    let mut body = MovingComponent::new(5000, 100_000, 5000);
    body.update(&forces, true);
    // a steering force of 5000 on a mass of five gives 1000; three times
    // that would have given 3000
    assert_eq!(body.pos(), Vec2::new(1000, 0));
}

#[test]
fn forces_are_dropped_when_they_run_out() {
    let mut body = MovingComponent::new(1000, 100_000, 5000);
    body.update(&[Force::new(Vec2::new(5000, 0), 1)], true);
    assert_eq!(body.pos(), Vec2::new(5000, 0));
    // the force is still listed, with no tick left, and acts once more
    body.update(&[], true);
    assert_eq!(body.pos(), Vec2::new(5000, 0));
}

#[test]
fn force_shorter_than_the_total_is_cut_to_what_is_left() {
    // the thrust is stretched to 4997 units of the budget of 5000; the next
    // force is shorter than the total so far, but longer than the 3 units
    // that are left, so it is cut to them
    let mut body = MovingComponent::new(1000, 100_000, 5000);
    body.set_thrust(Force::new(Vec2::new(706, -706), 2));
    body.update(&[Force::new(Vec2::new(3000, -3000), 3)], true);
    assert_eq!(body.pos(), Vec2::new(3535, -3535));
    assert!(body.pos().magnitude2() <= 5000 * 5000);
}

#[test]
fn force_that_fits_into_what_is_left_is_added_whole() {
    let mut body = MovingComponent::new(1000, 100_000, 5000);
    body.set_thrust(Force::new(Vec2::new(706, -706), 2));
    body.update(&[Force::new(Vec2::new(2, 0), 3)], true);
    assert_eq!(body.pos(), Vec2::new(3535, -3533));
}

#[test]
fn short_force_after_a_long_one_stays_within_the_limit() {
    let forces = [
        Force::new(Vec2::new(1000, 1000), 3),
        Force::new(Vec2::new(5000, 0), 3),
    ];
    let mut body = MovingComponent::new(1000, 100_000, 10_000);
    body.update(&forces, true);
    assert_eq!(body.pos(), Vec2::new(7072, 7067));
    let steering = body.calculate();
    assert_eq!(steering, Vec2::new(7072, 7067));
    assert!(steering.magnitude2() <= 10_000 * 10_000);
}

#[test]
fn steering_force_is_within_the_limit() {
    let mut body = MovingComponent::new(1000, 100_000, 5000);
    assert_eq!(body.calculate(), Vec2::new(0, 0));
    body.set_thrust(Force::new(Vec2::new(3000, 4000), 2));
    assert_eq!(body.calculate(), Vec2::new(3000, 4000));
    body.set_thrust(Force::new(Vec2::new(30_000, 40_000), 2));
    assert_eq!(body.calculate(), Vec2::new(3000, 4000));
    let mut total = Vec2::new(3000, 0);
    assert!(body.accumulate_force(&mut total, Vec2::new(0, 1000)));
    assert_eq!(total, Vec2::new(3000, 1000));
    assert!(body.accumulate_force(&mut total, Vec2::new(0, 3000)));
    assert_eq!(total, Vec2::new(3000, 2837));
    assert!(total.magnitude2() <= 5000 * 5000);
}

#[test]
fn body_starts_at_rest() {
    let mut body = MovingComponent::new(5000, 700, 5000);
    assert_eq!(body.pos(), Vec2::new(0, 0));
    assert!(body.thrust().depleeted());
    assert!(!body.update(&[], false));
    assert_eq!(body.pos(), Vec2::new(0, 0));
}
