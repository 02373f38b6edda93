use arcade_accelerate::hitbox::{HitBox, NativeAdjustedPoints, RotatableHitBox};
use arcade_accelerate::rotation::Rotation;

/// The scalar that stands for `v`.
fn fx(v: f64) -> i32 {
    (v * 65536.0).round() as i32
}

fn pt(x: f64, y: f64) -> (i32, i32) {
    (fx(x), fx(y))
}

/// The rotation by `degrees`.
fn rot(degrees: f64) -> Rotation {
    let rad = degrees.to_radians();
    Rotation { cos: fx(rad.cos()), sin: fx(rad.sin()) }
}

fn square() -> Vec<(i32, i32)> {
    vec![pt(-1.0, -1.0), pt(-1.0, 1.0), pt(1.0, 1.0), pt(1.0, -1.0)]
}

#[test]
fn new_hit_box_has_the_defaults() {
    let hitbox = HitBox::new(square(), None, None);
    assert_eq!(hitbox.points(), &square());
    assert_eq!(hitbox.position(), pt(0.0, 0.0));
    assert_eq!(hitbox.scale(), pt(1.0, 1.0));
    let given = HitBox::new(square(), Some(pt(3.0, 4.0)), Some(pt(2.0, 0.5)));
    assert_eq!(given.position(), pt(3.0, 4.0));
    assert_eq!(given.scale(), pt(2.0, 0.5));
}

#[test]
fn hit_box_at_origin_with_scale_one_is_its_polygon() {
    let mut hitbox = HitBox::new(square(), None, None);
    assert_eq!(hitbox.get_adjusted_points(), square());
}

#[test]
fn adjusted_points_scale_then_move() {
    let mut hitbox = HitBox::new(square(), Some(pt(10.0, 20.0)), Some(pt(2.0, 0.5)));
    assert_eq!(
        hitbox.get_adjusted_points(),
        vec![pt(8.0, 19.5), pt(8.0, 20.5), pt(12.0, 20.5), pt(12.0, 19.5)]
    );
}

#[test]
fn asking_twice_gives_the_same_points() {
    let mut hitbox = HitBox::new(square(), Some(pt(10.0, 20.0)), Some(pt(2.0, 0.5)));
    let first = hitbox.get_adjusted_points();
    let second = hitbox.get_adjusted_points();
    assert_eq!(first, second);
    assert_eq!(hitbox.get_adjusted_points_native(), &first);
    assert_eq!(hitbox.snapshot(), first);
}

#[test]
fn a_change_is_seen_by_the_next_query() {
    let mut hitbox = HitBox::new(square(), None, None);
    assert_eq!(hitbox.get_adjusted_points(), square());

    hitbox.set_position(pt(5.0, -5.0));
    let fresh = HitBox::new(square(), Some(pt(5.0, -5.0)), None).get_adjusted_points();
    assert_eq!(hitbox.get_adjusted_points(), fresh);
    assert_eq!(fresh, vec![pt(4.0, -6.0), pt(4.0, -4.0), pt(6.0, -4.0), pt(6.0, -6.0)]);

    hitbox.set_scale(pt(3.0, 3.0));
    let fresh = HitBox::new(square(), Some(pt(5.0, -5.0)), Some(pt(3.0, 3.0))).get_adjusted_points();
    assert_eq!(hitbox.get_adjusted_points(), fresh);
    assert_eq!(fresh, vec![pt(2.0, -8.0), pt(2.0, -2.0), pt(8.0, -2.0), pt(8.0, -8.0)]);

    hitbox.set_points(vec![pt(0.0, 0.0), pt(1.0, 0.0), pt(0.0, 1.0)]);
    assert_eq!(
        hitbox.get_adjusted_points(),
        vec![pt(5.0, -5.0), pt(8.0, -5.0), pt(5.0, -2.0)]
    );
}

#[test]
fn the_returned_points_are_a_copy() {
    let mut hitbox = HitBox::new(square(), None, None);
    let mut handed_out = hitbox.get_adjusted_points();
    handed_out[0] = pt(100.0, 100.0);
    handed_out.push(pt(7.0, 7.0));
    assert_eq!(hitbox.get_adjusted_points(), square());
}

#[test]
fn edges_of_a_hit_box() {
    let points = vec![pt(-3.0, 1.0), pt(0.0, 4.0), pt(2.0, -5.0)];
    let mut hitbox = HitBox::new(points, Some(pt(10.0, 10.0)), Some(pt(2.0, 1.0)));
    assert_eq!(hitbox.left(), fx(4.0));
    assert_eq!(hitbox.right(), fx(14.0));
    assert_eq!(hitbox.bottom(), fx(5.0));
    assert_eq!(hitbox.top(), fx(14.0));
}

#[test]
fn a_negative_scale_mirrors() {
    let points = vec![pt(1.0, 2.0), pt(3.0, 4.0), pt(5.0, 0.0)];
    let mut hitbox = HitBox::new(points, None, Some(pt(-1.0, 1.0)));
    assert_eq!(hitbox.get_adjusted_points(), vec![pt(-1.0, 2.0), pt(-3.0, 4.0), pt(-5.0, 0.0)]);
    assert_eq!(hitbox.left(), fx(-5.0));
    assert_eq!(hitbox.right(), fx(-1.0));
}

#[test]
fn scaling_rounds_to_the_nearest_raw_value() {
    // three raw steps times one half: 1.5 steps, rounded away from zero
    let mut hitbox = HitBox::new(vec![(3, -3)], None, Some(pt(0.5, 0.5)));
    assert_eq!(hitbox.get_adjusted_points(), vec![(2, -2)]);
}

#[test]
fn points_stop_at_the_end_of_the_range() {
    let mut hitbox = HitBox::new(
        vec![(i32::MAX, i32::MIN)],
        Some((i32::MAX, i32::MIN)),
        Some(pt(2.0, 2.0)),
    );
    assert_eq!(hitbox.get_adjusted_points(), vec![(i32::MAX, i32::MIN)]);
}

#[test]
fn empty_hit_box_has_no_points_in_the_world() {
    let mut hitbox = HitBox::new(vec![], Some(pt(1.0, 1.0)), None);
    assert_eq!(hitbox.get_adjusted_points(), vec![]);
    let mut rotatable = RotatableHitBox::new(vec![], None, None, Some(rot(30.0)));
    assert_eq!(rotatable.get_adjusted_points(), vec![]);
}

#[test]
fn new_rotatable_hit_box_has_the_defaults() {
    let hitbox = RotatableHitBox::new(square(), None, None, None);
    assert_eq!(hitbox.points(), &square());
    assert_eq!(hitbox.position(), pt(0.0, 0.0));
    assert_eq!(hitbox.scale(), pt(1.0, 1.0));
    assert_eq!(hitbox.angle(), Rotation::identity());
    assert_eq!(Rotation::identity(), Rotation { cos: fx(1.0), sin: 0 });
}

#[test]
fn rotatable_hit_box_without_angle_matches_the_plain_one() {
    let mut plain = HitBox::new(square(), Some(pt(10.0, 20.0)), Some(pt(2.0, 0.5)));
    let mut rotatable = RotatableHitBox::new(square(), Some(pt(10.0, 20.0)), Some(pt(2.0, 0.5)), None);
    assert_eq!(plain.get_adjusted_points(), rotatable.get_adjusted_points());
}

#[test]
fn rotation_comes_before_scale_and_position() {
    // a quarter turn sends (x, y) to (y, -x)
    let points = vec![pt(1.0, 0.0), pt(0.0, 1.0), pt(2.0, 3.0)];
    let mut hitbox =
        RotatableHitBox::new(points, Some(pt(10.0, 20.0)), Some(pt(2.0, 1.0)), Some(rot(90.0)));
    assert_eq!(
        hitbox.get_adjusted_points(),
        vec![pt(10.0, 19.0), pt(12.0, 20.0), pt(16.0, 18.0)]
    );
}

#[test]
fn rotation_by_thirty_degrees() {
    let mut hitbox = RotatableHitBox::new(vec![pt(10.0, 0.0)], None, None, Some(rot(30.0)));
    let points = hitbox.get_adjusted_points();
    let x = points[0].0 as f64 / 65536.0;
    let y = points[0].1 as f64 / 65536.0;
    assert!((x - 8.660254).abs() < 1.0e-3);
    assert!((y + 5.0).abs() < 1.0e-3);
}

#[test]
fn turning_and_turning_back() {
    let points = vec![pt(3.0, 4.0), pt(-7.5, 0.25), pt(0.0, -9.0)];
    for degrees in [30.0, 45.0, 77.0, 90.0, 180.0, 200.0, 270.0] {
        let turned = RotatableHitBox::new(points.clone(), None, None, Some(rot(degrees)))
            .get_adjusted_points();
        let back =
            RotatableHitBox::new(turned, None, None, Some(rot(-degrees))).get_adjusted_points();
        for (p, q) in points.iter().zip(back.iter()) {
            // off by at most one and a half steps, and two for each unit of size
            let off_x = (p.0 as i64 - q.0 as i64).abs();
            let off_y = (p.1 as i64 - q.1 as i64).abs();
            assert!(65536 * off_x <= 2 * (p.0 as i64).abs() + 98304);
            assert!(65536 * off_y <= 2 * (p.1 as i64).abs() + 98304);
        }
    }
    // quarter turns come back exactly
    for degrees in [0.0, 90.0, 180.0, 270.0] {
        let turned = RotatableHitBox::new(points.clone(), None, None, Some(rot(degrees)))
            .get_adjusted_points();
        let back =
            RotatableHitBox::new(turned, None, None, Some(rot(-degrees))).get_adjusted_points();
        assert_eq!(back, points);
    }
}

#[test]
fn rotatable_hit_box_sees_every_change() {
    let mut hitbox = RotatableHitBox::new(square(), None, None, None);
    let first = hitbox.get_adjusted_points();
    assert_eq!(first, square());
    assert_eq!(hitbox.get_adjusted_points(), first);
    assert_eq!(hitbox.get_adjusted_points_native(), &first);
    assert_eq!(hitbox.snapshot(), first);

    hitbox.set_angle(rot(90.0));
    assert_eq!(hitbox.angle(), rot(90.0));
    assert_eq!(
        hitbox.get_adjusted_points(),
        vec![pt(-1.0, 1.0), pt(1.0, 1.0), pt(1.0, -1.0), pt(-1.0, -1.0)]
    );

    hitbox.set_scale(pt(2.0, 3.0));
    assert_eq!(
        hitbox.get_adjusted_points(),
        vec![pt(-2.0, 3.0), pt(2.0, 3.0), pt(2.0, -3.0), pt(-2.0, -3.0)]
    );

    hitbox.set_position(pt(1.0, 1.0));
    let fresh = RotatableHitBox::new(square(), Some(pt(1.0, 1.0)), Some(pt(2.0, 3.0)), Some(rot(90.0)))
        .get_adjusted_points();
    assert_eq!(hitbox.get_adjusted_points(), fresh);
    assert_eq!(fresh, vec![pt(-1.0, 4.0), pt(3.0, 4.0), pt(3.0, -2.0), pt(-1.0, -2.0)]);
    assert_eq!(hitbox.left(), fx(-1.0));
    assert_eq!(hitbox.right(), fx(3.0));
    assert_eq!(hitbox.bottom(), fx(-2.0));
    assert_eq!(hitbox.top(), fx(4.0));

    hitbox.set_points(vec![pt(1.0, 0.0)]);
    assert_eq!(hitbox.get_adjusted_points(), vec![pt(1.0, -2.0)]);
}

#[test]
fn create_rotatable_keeps_polygon_position_and_scale() {
    let plain = HitBox::new(square(), Some(pt(10.0, 20.0)), Some(pt(2.0, 0.5)));
    let rotatable = plain.create_rotatable(Some(rot(90.0)));
    assert_eq!(rotatable.points(), &square());
    assert_eq!(rotatable.position(), pt(10.0, 20.0));
    assert_eq!(rotatable.scale(), pt(2.0, 0.5));
    assert_eq!(rotatable.angle(), rot(90.0));
    let again = rotatable.create_rotatable(None);
    assert_eq!(again.points(), &square());
    assert_eq!(again.position(), pt(10.0, 20.0));
    assert_eq!(again.scale(), pt(2.0, 0.5));
    assert_eq!(again.angle(), Rotation::identity());
}

#[test]
fn rounded_cosine_and_sine_are_nearly_unit() {
    for tenth in 0..3600 {
        let angle = rot(tenth as f64 / 10.0);
        let (c, s) = (angle.cos as i64, angle.sin as i64);
        assert!(-65536 <= c && c <= 65536 && -65536 <= s && s <= 65536);
        let excess = c * c + s * s - 65536 * 65536;
        assert!(-2 * 65536 <= excess && excess <= 2 * 65536, "{} tenths", tenth);
    }
}

#[test]
fn every_change_makes_the_hit_box_forget() {
    let mut hitbox = HitBox::new(square(), None, None);
    assert_eq!(hitbox.remembered(), None);
    let points = hitbox.get_adjusted_points();
    assert_eq!(hitbox.remembered(), Some(points));
    hitbox.set_position(pt(1.0, 1.0));
    assert_eq!(hitbox.remembered(), None);
    hitbox.left();
    assert_eq!(hitbox.remembered(), Some(hitbox.snapshot()));
    hitbox.set_scale(pt(2.0, 2.0));
    assert_eq!(hitbox.remembered(), None);
    hitbox.get_adjusted_points_native();
    assert!(hitbox.remembered().is_some());
    hitbox.set_points(vec![pt(0.0, 0.0)]);
    assert_eq!(hitbox.remembered(), None);
    // setting what is there already forgets as well
    hitbox.get_adjusted_points();
    hitbox.set_position(pt(1.0, 1.0));
    assert_eq!(hitbox.remembered(), None);
    // a copy remembers what its source remembers
    hitbox.get_adjusted_points();
    assert_eq!(hitbox.clone().remembered(), hitbox.remembered());
}

#[test]
fn every_change_makes_the_rotatable_hit_box_forget() {
    let mut hitbox = RotatableHitBox::new(square(), None, None, None);
    assert_eq!(hitbox.remembered(), None);
    let points = hitbox.get_adjusted_points();
    assert_eq!(hitbox.remembered(), Some(points));
    hitbox.set_angle(rot(45.0));
    assert_eq!(hitbox.remembered(), None);
    hitbox.top();
    assert_eq!(hitbox.remembered(), Some(hitbox.snapshot()));
    hitbox.set_position(pt(1.0, 1.0));
    assert_eq!(hitbox.remembered(), None);
    hitbox.get_adjusted_points();
    hitbox.set_scale(pt(2.0, 2.0));
    assert_eq!(hitbox.remembered(), None);
    hitbox.get_adjusted_points();
    hitbox.set_points(vec![pt(0.0, 0.0)]);
    assert_eq!(hitbox.remembered(), None);
    assert_eq!(hitbox.create_rotatable(None).remembered(), None);
}
