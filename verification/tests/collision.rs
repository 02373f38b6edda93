use arcade_accelerate::geometry::are_polygons_intersecting_native;
use arcade_accelerate::rotation::Rotation;
use arcade_accelerate::sprite::{BasicSprite, Sprite, Texture};
use arcade_accelerate::sprite_list::{
    check_for_collision, check_for_collision_with_list, check_for_collision_with_lists,
    within_reach,
};

/// The scalar that stands for `v`.
fn fx(v: f64) -> i32 {
    (v * 65536.0).round() as i32
}

fn pt(x: f64, y: f64) -> (i32, i32) {
    (fx(x), fx(y))
}

/// The rotation by `degrees`.
fn rot(degrees: f64) -> Rotation {
    let rad = degrees.to_radians();
    Rotation { cos: fx(rad.cos()), sin: fx(rad.sin()) }
}

/// A square texture of the given side, with its outline as the polygon.
fn square_texture(side: f64) -> Texture {
    let h = side / 2.0;
    Texture {
        width: fx(side),
        height: fx(side),
        hit_box_points: vec![pt(-h, -h), pt(-h, h), pt(h, h), pt(h, -h)],
    }
}

fn sprite_at(x: f64, y: f64) -> BasicSprite {
    BasicSprite::new(square_texture(10.0), None, Some(fx(x)), Some(fx(y)))
}

#[test]
fn overlapping_sprites_collide() {
    let a = sprite_at(0.0, 0.0);
    let b = sprite_at(5.0, 5.0);
    assert!(within_reach(&a, &b));
    assert!(check_for_collision(&a, &b));
    assert!(check_for_collision(&b, &a));
}

#[test]
fn distant_sprites_do_not_collide() {
    let a = sprite_at(0.0, 0.0);
    let b = sprite_at(100.0, 0.0);
    assert!(!within_reach(&a, &b));
    assert!(!check_for_collision(&a, &b));
    assert!(!check_for_collision(&b, &a));
}

#[test]
fn the_reach_is_seventy_one_hundredths_of_the_summed_radii() {
    // two sprites of radius 10: within reach up to a distance of 14.2
    let a = sprite_at(0.0, 0.0);
    assert!(within_reach(&a, &sprite_at(14.2, 0.0)));
    assert!(!within_reach(&a, &sprite_at(14.3, 0.0)));
    assert!(within_reach(&a, &sprite_at(0.0, -14.2)));
    assert!(!within_reach(&a, &sprite_at(0.0, -14.3)));
    // along the diagonal the distance counts, not each axis
    assert!(within_reach(&a, &sprite_at(10.0, 10.0)));
    assert!(!within_reach(&a, &sprite_at(10.1, 10.1)));
}

#[test]
fn the_radius_is_the_greater_of_width_and_height() {
    let wide = Texture {
        width: fx(40.0),
        height: fx(2.0),
        hit_box_points: vec![pt(-20.0, -1.0), pt(-20.0, 1.0), pt(20.0, 1.0), pt(20.0, -1.0)],
    };
    let a = BasicSprite::new(wide, None, None, None);
    // radii 40 and 10: reach 35.5
    assert!(within_reach(&a, &sprite_at(0.0, 35.5)));
    assert!(!within_reach(&a, &sprite_at(0.0, 35.6)));
}

#[test]
fn rejection_by_reach_wins_over_the_polygons() {
    // hit boxes far greater than the sprites' sizes say: the polygons overlap,
    // the reach says no
    let big = Texture {
        width: fx(1.0),
        height: fx(1.0),
        hit_box_points: vec![pt(-50.0, -50.0), pt(-50.0, 50.0), pt(50.0, 50.0), pt(50.0, -50.0)],
    };
    let a = BasicSprite::new(big, None, None, None);
    let b = sprite_at(20.0, 0.0);
    assert!(are_polygons_intersecting_native(&a.hit_box().snapshot(), &b.hit_box().snapshot()));
    assert!(!within_reach(&a, &b));
    assert!(!check_for_collision(&a, &b));
}

#[test]
fn a_collision_is_an_intersection_of_the_hit_boxes() {
    let a = sprite_at(0.0, 0.0);
    for step in 0..40 {
        let b = sprite_at(step as f64 * 0.5, step as f64 * 0.25);
        if check_for_collision(&a, &b) {
            assert!(are_polygons_intersecting_native(
                &a.hit_box().snapshot(),
                &b.hit_box().snapshot()
            ));
        }
    }
}

#[test]
fn within_reach_but_apart() {
    // the corners of two squares at (0, 0) and (10, 10) only touch
    let a = sprite_at(0.0, 0.0);
    let b = sprite_at(10.0, 10.0);
    assert!(within_reach(&a, &b));
    assert!(!check_for_collision(&a, &b));
}

#[test]
fn a_turned_sprite_reaches_further() {
    let long = Texture {
        width: fx(20.0),
        height: fx(2.0),
        hit_box_points: vec![pt(-10.0, -1.0), pt(-10.0, 1.0), pt(10.0, 1.0), pt(10.0, -1.0)],
    };
    let mut turning = Sprite::new(long, None, None, None, None);
    let above = sprite_at(0.0, 10.0);
    assert!(!check_for_collision(turning.basic(), &above));
    turning.set_angle(rot(90.0));
    assert!(check_for_collision(turning.basic(), &above));
    assert!(check_for_collision(&above, turning.basic()));
}

#[test]
fn collisions_with_a_list_come_in_the_order_of_the_list() {
    let sprite = sprite_at(0.0, 0.0);
    let list = vec![
        sprite_at(100.0, 0.0),
        sprite_at(5.0, 0.0),
        sprite_at(0.0, 100.0),
        sprite_at(-5.0, -5.0),
        sprite_at(0.0, 0.0),
    ];
    assert_eq!(check_for_collision_with_list(&sprite, &list), vec![1, 3, 4]);
    assert_eq!(check_for_collision_with_list(&sprite, &vec![]), vec![]);
    assert_eq!(check_for_collision_with_list(&sprite_at(500.0, 500.0), &list), vec![]);
}

#[test]
fn a_sprite_in_its_own_list_is_found() {
    let list = vec![sprite_at(0.0, 0.0), sprite_at(50.0, 50.0)];
    assert_eq!(check_for_collision_with_list(&list[0], &list), vec![0]);
    assert_eq!(check_for_collision_with_list(&list[1], &list), vec![1]);
}

#[test]
fn collisions_with_lists_come_list_after_list() {
    let sprite = sprite_at(0.0, 0.0);
    let lists = vec![
        vec![sprite_at(100.0, 0.0), sprite_at(5.0, 0.0)],
        vec![],
        vec![sprite_at(-5.0, -5.0), sprite_at(0.0, 100.0), sprite_at(5.0, 0.0)],
    ];
    assert_eq!(check_for_collision_with_lists(&sprite, &lists), vec![(0, 1), (2, 0), (2, 2)]);
    assert_eq!(check_for_collision_with_lists(&sprite, &vec![]), vec![]);
}

#[test]
fn a_sprite_with_an_empty_hit_box_collides_with_nothing() {
    let nothing = Texture { width: fx(10.0), height: fx(10.0), hit_box_points: vec![] };
    let ghost = BasicSprite::new(nothing, None, None, None);
    let solid = sprite_at(0.0, 0.0);
    assert!(within_reach(&ghost, &solid));
    assert!(!check_for_collision(&ghost, &solid));
    assert!(!check_for_collision(&solid, &ghost));
}
