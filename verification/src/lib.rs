//! Collision detection for sprites in the plane.
//!
//! A sprite carries a hit box: a polygon in the sprite's own frame that is
//! turned, scaled and moved into the world. Two sprites collide when they
//! are near enough and no edge normal of either polygon separates the two
//! polygons.
//!
//! Every scalar is a signed fixed-point number with sixteen fractional bits,
//! held as its raw 32-bit integer, so that every test of the geometry is
//! exact. Arithmetic that would leave the scalar range stops at its end.

pub mod fixed;
pub mod geometry;
pub mod hitbox;
pub mod math;
pub mod rotation;
pub mod sprite;
pub mod sprite_list;

pub use fixed::{Point, Scalar, UNIT};
pub use geometry::{
    are_lines_intersecting, are_polygons_intersecting, are_polygons_intersecting_native,
    get_triangle_orientation, is_point_in_box, is_point_in_polygon, Orientation,
};
pub use hitbox::{HitBox, NativeAdjustedPoints, RotatableHitBox};
pub use math::{
    clamp, get_distance, lerp, lerp_angle, lerp_vec, rand_angle_360_deg, rand_angle_spread_deg,
    rand_in_rect, rand_on_line, rand_vec_magnitude, rotate_point, Vec2,
};
pub use rotation::Rotation;
pub use sprite::{AttachedHitBox, BasicSprite, Color, Notice, Sprite, Texture};
pub use sprite_list::{
    check_for_collision, check_for_collision_with_list, check_for_collision_with_lists,
    within_reach,
};
