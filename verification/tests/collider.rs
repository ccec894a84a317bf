use atoma::entity::collider::round_up_to_pixel;
use atoma::entity::{Collider, CollisionKind};
use atoma::vector::Vec2;

fn square(x: i32, y: i32, side: i32, kind: CollisionKind) -> Collider {
    Collider::new(Vec2::new(x, y), Vec2::new(side, side), kind)
}

#[test]
fn boxes_that_touch_do_not_intersect() {
    let a = square(0, 0, 10_000, CollisionKind::Friendly);
    let b = square(10_000, 0, 10_000, CollisionKind::Hostile);
    assert!(!a.intersects(&b));
    assert!(!b.intersects(&a));
}

#[test]
fn overlap_of_twice_epsilon_is_no_intersection() {
    let a = square(0, 0, 10_000, CollisionKind::Friendly);
    let b = square(9_990, 0, 10_000, CollisionKind::Hostile);
    assert!(!a.intersects(&b));
    let c = square(9_989, 0, 10_000, CollisionKind::Hostile);
    assert!(a.intersects(&c));
    assert!(c.intersects(&a));
}

#[test]
fn deep_overlap_on_one_axis_alone_is_no_intersection() {
    let a = square(0, 0, 10_000, CollisionKind::Friendly);
    let b = square(5000, 9_990, 10_000, CollisionKind::Hostile);
    assert!(!a.intersects(&b));
    assert!(!b.intersects(&a));
    let c = square(5000, 9_989, 10_000, CollisionKind::Hostile);
    assert!(a.intersects(&c));
}

#[test]
fn box_thinner_than_the_shrinking_can_intersect_without_overlap() {
    let point = square(5000, 5000, 0, CollisionKind::Friendly);
    let around = square(0, 0, 10_000, CollisionKind::Hostile);
    assert!(point.intersects(&around));
    assert!(around.intersects(&point));
}

#[test]
fn collider_knows_its_kind_and_place() {
    let a = square(12_500, -3_999, 10_000, CollisionKind::Hostile);
    assert!(a.hostile());
    assert!(!square(0, 0, 1, CollisionKind::Friendly).hostile());
    assert_eq!(a.origin(), Vec2::new(12_500, -3_999));
    assert_eq!(a.relative_pos(Vec2::new(10, 0)), Vec2::new(2, -3));
}

#[test]
fn push_out_goes_away_from_the_other_box() {
    let own = square(0, 0, 10_000, CollisionKind::Friendly);
    assert_eq!(
        own.push_out(&square(4000, 0, 10_000, CollisionKind::Hostile)),
        Vec2::new(-7000, 0)
    );
    assert_eq!(
        own.push_out(&square(-4000, 0, 20_000, CollisionKind::Hostile)),
        Vec2::new(17_000, 0)
    );
    assert_eq!(
        own.push_out(&square(0, -6000, 10_000, CollisionKind::Hostile)),
        Vec2::new(0, 5000)
    );
}

#[test]
fn push_out_upward_goes_eight_pixels_further() {
    let own = square(0, 0, 10_000, CollisionKind::Friendly);
    // ten pixels of box less one of distance plus a half, and eight more
    assert_eq!(
        own.push_out(&square(0, 1000, 10_000, CollisionKind::Hostile)),
        Vec2::new(0, -18_000)
    );
    assert_eq!(
        own.push_out(&square(0, 2000, 10_000, CollisionKind::Hostile)),
        Vec2::new(0, -17_000)
    );
    assert_eq!(
        own.push_out(&square(0, 7000, 10_000, CollisionKind::Hostile)),
        Vec2::new(0, -12_000)
    );
    assert_eq!(
        own.push_out(&square(0, 9000, 10_000, CollisionKind::Hostile)),
        Vec2::new(0, -10_000)
    );
    // downward nothing is added
    assert_eq!(
        own.push_out(&square(0, -9000, 10_000, CollisionKind::Hostile)),
        Vec2::new(0, 2000)
    );
}

#[test]
fn push_out_never_leads_toward_the_other_box() {
    let own = square(0, 0, 10_000, CollisionKind::Friendly);
    for distance in [1, 999, 1000, 5000, 9989, 10_000, 18_499, 18_500, 30_000, 2_000_000_000] {
        let below = own.push_out(&square(0, distance, 10_000, CollisionKind::Hostile));
        assert!(below.y <= 0);
        assert_eq!(below.x, 0);
        let above = own.push_out(&square(0, -distance, 10_000, CollisionKind::Hostile));
        assert!(above.y >= 0);
        assert_eq!(above.x, 0);
        let right = own.push_out(&square(distance, 0, 10_000, CollisionKind::Hostile));
        assert!(right.x <= 0);
        assert_eq!(right.y, 0);
        let left = own.push_out(&square(-distance, 0, 10_000, CollisionKind::Hostile));
        assert!(left.x >= 0);
        assert_eq!(left.y, 0);
    }
    // boxes at the same place part along x
    assert_eq!(
        own.push_out(&square(0, 0, 10_000, CollisionKind::Hostile)),
        Vec2::new(11_000, 0)
    );
    // a box that is out of reach is not moved
    assert_eq!(
        own.push_out(&square(0, 18_500, 10_000, CollisionKind::Hostile)),
        Vec2::new(0, 0)
    );
    assert_eq!(
        own.push_out(&square(0, 18_499, 10_000, CollisionKind::Hostile)),
        Vec2::new(0, -1000)
    );
}

#[test]
fn lengths_are_rounded_up_to_whole_pixels() {
    assert_eq!(round_up_to_pixel(6500), 7000);
    assert_eq!(round_up_to_pixel(7000), 7000);
    assert_eq!(round_up_to_pixel(1), 1000);
    assert_eq!(round_up_to_pixel(0), 0);
    assert_eq!(round_up_to_pixel(-1), 0);
    assert_eq!(round_up_to_pixel(-1500), -1000);
    assert_eq!(round_up_to_pixel(-2000), -2000);
}
