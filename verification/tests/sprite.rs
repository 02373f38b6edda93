use arcade_accelerate::rotation::Rotation;
use arcade_accelerate::sprite::{AttachedHitBox, BasicSprite, Notice, Sprite, Texture};

/// The scalar that stands for `v`.
fn fx(v: f64) -> i32 {
    (v * 65536.0).round() as i32
}

fn pt(x: f64, y: f64) -> (i32, i32) {
    (fx(x), fx(y))
}

/// The rotation by `degrees`.
fn rot(degrees: f64) -> Rotation {
    let rad = degrees.to_radians();
    Rotation { cos: fx(rad.cos()), sin: fx(rad.sin()) }
}

/// A texture of 20 by 10 with its outline as the polygon.
fn texture() -> Texture {
    Texture {
        width: fx(20.0),
        height: fx(10.0),
        hit_box_points: vec![pt(-10.0, -5.0), pt(-10.0, 5.0), pt(10.0, 5.0), pt(10.0, -5.0)],
    }
}

#[test]
fn new_sprite_has_the_defaults() {
    let sprite = BasicSprite::new(texture(), None, None, None);
    assert_eq!(sprite.get_position(), pt(0.0, 0.0));
    assert_eq!(sprite.get_scale(), fx(1.0));
    assert_eq!(sprite.get_scalexy(), pt(1.0, 1.0));
    assert_eq!(sprite.get_depth(), 0);
    assert_eq!(sprite.get_width(), fx(20.0));
    assert_eq!(sprite.get_height(), fx(10.0));
    assert_eq!(sprite.get_color(), (255, 255, 255, 255));
    assert_eq!(sprite.get_alpha(), 255);
    assert!(sprite.get_visible());
    assert_eq!(sprite.get_texture().width, fx(20.0));
    assert!(matches!(sprite.hit_box(), AttachedHitBox::Plain(_)));
    assert_eq!(sprite.hit_box().angle(), Rotation::identity());
    assert_eq!(sprite.hit_box().snapshot(), texture().hit_box_points);
}

#[test]
fn new_sprite_with_scale_and_centre() {
    let sprite = BasicSprite::new(texture(), Some(fx(2.0)), Some(fx(100.0)), Some(fx(50.0)));
    assert_eq!(sprite.get_position(), pt(100.0, 50.0));
    assert_eq!(sprite.get_center_x(), fx(100.0));
    assert_eq!(sprite.get_center_y(), fx(50.0));
    assert_eq!(sprite.get_scalexy(), pt(2.0, 2.0));
    assert_eq!(sprite.get_width(), fx(40.0));
    assert_eq!(sprite.get_height(), fx(20.0));
    assert_eq!(sprite.get_left(), fx(80.0));
    assert_eq!(sprite.get_right(), fx(120.0));
    assert_eq!(sprite.get_bottom(), fx(40.0));
    assert_eq!(sprite.get_top(), fx(60.0));
}

#[test]
fn moving_a_sprite_moves_its_hit_box() {
    let mut sprite = BasicSprite::new(texture(), None, None, None);
    assert_eq!(sprite.set_position(pt(0.0, 0.0)), None);
    assert_eq!(sprite.set_position(pt(5.0, 6.0)), Some(Notice::Position));
    assert_eq!(sprite.get_position(), pt(5.0, 6.0));
    assert_eq!(sprite.hit_box().position(), pt(5.0, 6.0));
    assert_eq!(
        sprite.hit_box().snapshot(),
        vec![pt(-5.0, 1.0), pt(-5.0, 11.0), pt(15.0, 11.0), pt(15.0, 1.0)]
    );
    assert_eq!(sprite.set_center_x(fx(5.0)), None);
    assert_eq!(sprite.set_center_x(fx(7.0)), Some(Notice::Position));
    assert_eq!(sprite.set_center_y(fx(6.0)), None);
    assert_eq!(sprite.set_center_y(fx(-1.0)), Some(Notice::Position));
    assert_eq!(sprite.get_position(), pt(7.0, -1.0));
}

#[test]
fn rescaling_a_sprite_resizes_it() {
    let mut sprite = BasicSprite::new(texture(), None, None, None);
    assert_eq!(sprite.set_scale(fx(1.0)), None);
    assert_eq!(sprite.set_scale(fx(3.0)), Some(Notice::Size));
    assert_eq!(sprite.get_scalexy(), pt(3.0, 3.0));
    assert_eq!(sprite.get_width(), fx(60.0));
    assert_eq!(sprite.get_height(), fx(30.0));
    assert_eq!(sprite.set_scalexy(pt(3.0, 3.0)), None);
    assert_eq!(sprite.set_scalexy(pt(0.5, 2.0)), Some(Notice::Size));
    assert_eq!(sprite.get_scale(), fx(0.5));
    assert_eq!(sprite.get_width(), fx(10.0));
    assert_eq!(sprite.get_height(), fx(20.0));
    assert_eq!(sprite.hit_box().scale(), pt(0.5, 2.0));
    assert_eq!(
        sprite.hit_box().snapshot(),
        vec![pt(-5.0, -10.0), pt(-5.0, 10.0), pt(5.0, 10.0), pt(5.0, -10.0)]
    );
}

#[test]
fn setting_width_and_height_sets_the_scale() {
    let mut sprite = BasicSprite::new(texture(), None, None, None);
    assert_eq!(sprite.set_width(fx(20.0)), None);
    assert_eq!(sprite.set_width(fx(50.0)), Some(Notice::Width));
    assert_eq!(sprite.get_width(), fx(50.0));
    assert_eq!(sprite.get_scalexy(), pt(2.5, 1.0));
    assert_eq!(sprite.set_height(fx(10.0)), None);
    assert_eq!(sprite.set_height(fx(5.0)), Some(Notice::Height));
    assert_eq!(sprite.get_height(), fx(5.0));
    assert_eq!(sprite.get_scalexy(), pt(2.5, 0.5));
    assert_eq!(sprite.hit_box().scale(), pt(2.5, 0.5));
}

#[test]
fn a_texture_without_width_gives_the_greatest_scale() {
    let flat = Texture { width: 0, height: fx(10.0), hit_box_points: vec![] };
    let mut sprite = BasicSprite::new(flat, None, None, None);
    assert_eq!(sprite.get_width(), 0);
    assert_eq!(sprite.set_width(fx(5.0)), Some(Notice::Width));
    assert_eq!(sprite.get_scalexy(), (i32::MAX, fx(1.0)));
}

#[test]
fn depth_of_a_sprite() {
    let mut sprite = BasicSprite::new(texture(), None, None, None);
    assert_eq!(sprite.set_depth(0), None);
    assert_eq!(sprite.set_depth(fx(-3.0)), Some(Notice::Depth));
    assert_eq!(sprite.get_depth(), fx(-3.0));
}

#[test]
fn another_texture_resizes_the_sprite() {
    let mut sprite = BasicSprite::new(texture(), Some(fx(2.0)), None, None);
    let other = Texture { width: fx(8.0), height: fx(4.0), hit_box_points: vec![pt(0.0, 0.0)] };
    assert_eq!(sprite.set_texture(other), Some(Notice::Texture));
    assert_eq!(sprite.get_width(), fx(16.0));
    assert_eq!(sprite.get_height(), fx(8.0));
    assert_eq!(sprite.get_texture().hit_box_points, vec![pt(0.0, 0.0)]);
    // the hit box keeps its polygon
    assert_eq!(sprite.hit_box().snapshot().len(), 4);
}

#[test]
fn colour_from_three_or_four_channels() {
    let mut sprite = BasicSprite::new(texture(), None, None, None);
    assert_eq!(sprite.set_color(vec![255, 255, 255]), None);
    assert_eq!(sprite.set_color(vec![255, 255, 255, 255]), None);
    assert_eq!(sprite.set_color(vec![1, 2, 3, 4]), Some(Notice::Color));
    assert_eq!(sprite.get_color(), (1, 2, 3, 4));
    assert_eq!(sprite.set_color(vec![5, 6, 7]), Some(Notice::Color));
    assert_eq!(sprite.get_color(), (5, 6, 7, 4));
}

#[test]
fn alpha_and_visibility() {
    let mut sprite = BasicSprite::new(texture(), None, None, None);
    assert_eq!(sprite.set_alpha(255), None);
    assert_eq!(sprite.set_alpha(10), Some(Notice::Color));
    assert_eq!(sprite.get_alpha(), 10);
    assert!(sprite.get_visible());
    assert_eq!(sprite.set_visible(false), Some(Notice::Color));
    assert_eq!(sprite.get_alpha(), 0);
    assert!(!sprite.get_visible());
    assert_eq!(sprite.set_visible(false), Some(Notice::Color));
    assert_eq!(sprite.set_visible(true), Some(Notice::Color));
    assert_eq!(sprite.get_color(), (255, 255, 255, 255));
}

#[test]
fn moving_a_sprite_by_its_edges() {
    let mut sprite = BasicSprite::new(texture(), None, Some(fx(100.0)), Some(fx(50.0)));
    assert_eq!(sprite.set_left(fx(90.0)), None);
    assert_eq!(sprite.set_left(fx(0.0)), Some(Notice::Position));
    assert_eq!(sprite.get_left(), fx(0.0));
    assert_eq!(sprite.get_position(), pt(10.0, 50.0));
    assert_eq!(sprite.set_right(fx(100.0)), Some(Notice::Position));
    assert_eq!(sprite.get_right(), fx(100.0));
    assert_eq!(sprite.get_position(), pt(90.0, 50.0));
    assert_eq!(sprite.set_bottom(fx(0.0)), Some(Notice::Position));
    assert_eq!(sprite.get_bottom(), fx(0.0));
    assert_eq!(sprite.get_position(), pt(90.0, 5.0));
    assert_eq!(sprite.set_top(fx(0.0)), Some(Notice::Position));
    assert_eq!(sprite.get_top(), fx(0.0));
    assert_eq!(sprite.get_position(), pt(90.0, -5.0));
}

#[test]
fn a_sprite_that_turns() {
    let mut sprite = Sprite::new(texture(), None, Some(fx(100.0)), Some(fx(50.0)), None);
    assert!(matches!(sprite.basic().hit_box(), AttachedHitBox::Rotatable(_)));
    assert_eq!(sprite.get_angle(), Rotation::identity());
    assert_eq!(sprite.basic().get_left(), fx(90.0));
    assert_eq!(sprite.set_angle(Rotation::identity()), None);
    assert_eq!(sprite.set_angle(rot(90.0)), Some(Notice::Angle));
    assert_eq!(sprite.get_angle(), rot(90.0));
    assert_eq!(sprite.basic().get_position(), pt(100.0, 50.0));
    assert_eq!(sprite.basic().get_left(), fx(95.0));
    assert_eq!(sprite.basic().get_top(), fx(60.0));
    assert_eq!(
        sprite.basic().hit_box().snapshot(),
        vec![pt(95.0, 60.0), pt(105.0, 60.0), pt(105.0, 40.0), pt(95.0, 40.0)]
    );
}

#[test]
fn a_sprite_made_with_an_angle() {
    let sprite = Sprite::new(texture(), Some(fx(2.0)), None, None, Some(rot(180.0)));
    assert_eq!(sprite.get_angle(), rot(180.0));
    assert_eq!(sprite.basic().get_width(), fx(40.0));
    assert_eq!(
        sprite.basic().hit_box().snapshot(),
        vec![pt(20.0, 10.0), pt(20.0, -10.0), pt(-20.0, -10.0), pt(-20.0, 10.0)]
    );
}

#[test]
fn a_turning_sprite_is_moved_as_a_basic_sprite() {
    let mut sprite = Sprite::new(texture(), None, None, None, Some(rot(90.0)));
    assert_eq!(sprite.basic_mut().set_position(pt(1.0, 2.0)), Some(Notice::Position));
    assert_eq!(sprite.basic().get_position(), pt(1.0, 2.0));
    assert_eq!(sprite.get_angle(), rot(90.0));
    assert_eq!(
        sprite.basic().hit_box().snapshot(),
        vec![pt(-4.0, 12.0), pt(6.0, 12.0), pt(6.0, -8.0), pt(-4.0, -8.0)]
    );
}
