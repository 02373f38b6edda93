use vstd::prelude::*;
use crate::fixed::Point;
use crate::geometry::{
    are_polygons_intersecting_native, lemma_polygons_intersect_symmetric, polygons_intersect,
};
use crate::sprite::{BasicSprite, BasicSpriteView};

verus! {

/// The share of the summed radii, in hundredths, within which two sprites
/// are looked at closely. It is a little over half of the square root of two:
/// a sprite is taken for the circle inside its bounding square. It tunes how
/// many pairs are looked at closely.
pub const REACH_PERCENT: i32 = 71;

/// The radius that stands for a sprite in the first, cheap test: the greater
/// of its width and height.
pub open spec fn bounding_radius(sprite: BasicSpriteView) -> int {
    if sprite.width > sprite.height {
        sprite.width as int
    } else {
        sprite.height as int
    }
}

/// The distance, in hundredths, up to which two sprites are looked at
/// closely.
pub open spec fn combined_reach(a: BasicSpriteView, b: BasicSpriteView) -> int {
    REACH_PERCENT * (bounding_radius(a) + bounding_radius(b))
}

/// The square of the distance between the centres of two sprites.
pub open spec fn center_distance_squared(a: BasicSpriteView, b: BasicSpriteView) -> int {
    let dx = a.position().0 - b.position().0;
    let dy = a.position().1 - b.position().1;
    dx * dx + dy * dy
}

/// The first test rejects the pair: the centres are farther apart than the
/// combined reach.
pub open spec fn too_far_apart(a: BasicSpriteView, b: BasicSpriteView) -> bool {
    10000 * center_distance_squared(a, b) > combined_reach(a, b) * combined_reach(a, b)
}

/// Two sprites collide when the first test does not reject them and their
/// hit boxes intersect in the world.
pub open spec fn sprites_collide(a: BasicSpriteView, b: BasicSpriteView) -> bool {
    !too_far_apart(a, b) && polygons_intersect(a.world_polygon(), b.world_polygon())
}

/// The places among the first `k` sprites of `list` with which `sprite`
/// collides, in the order of the list.
pub open spec fn colliding_indices(sprite: BasicSpriteView, list: Seq<BasicSprite>, k: int) -> Seq<
    usize,
>
    decreases k,
{
    if k <= 0 {
        Seq::empty()
    } else if sprites_collide(sprite, list[k - 1]@) {
        colliding_indices(sprite, list, k - 1).push((k - 1) as usize)
    } else {
        colliding_indices(sprite, list, k - 1)
    }
}

/// The places `indices` of one list, each with the number of that list.
pub open spec fn in_list(list_index: usize, indices: Seq<usize>) -> Seq<(usize, usize)> {
    Seq::new(indices.len(), |k: int| (list_index, indices[k]))
}

/// The sprites of the first `k` lists with which `sprite` collides, each as
/// the number of its list and its place there: list after list, and in the
/// order of each list.
pub open spec fn colliding_in_lists(
    sprite: BasicSpriteView,
    lists: Seq<Vec<BasicSprite>>,
    k: int,
) -> Seq<(usize, usize)>
    decreases k,
{
    if k <= 0 {
        Seq::empty()
    } else {
        colliding_in_lists(sprite, lists, k - 1) + in_list(
            (k - 1) as usize,
            colliding_indices(sprite, lists[k - 1]@, lists[k - 1]@.len() as int),
        )
    }
}

/// The squares that the first test compares stay inside 128 bits, and none
/// is negative.
proof fn lemma_square_bound(v: int, limit: int)
    by (nonlinear_arith)
    requires
        -limit <= v <= limit,
        0 <= limit <= 0x100_0000_0000,
    ensures
        0 <= v * v <= 0x1_0000_0000_0000_0000_0000,
{
}

/// The first, cheap test of a pair: whether the centres are within the
/// combined reach. It looks along `x`, then along `y`, then at the distance
/// itself, and stops at the first that is too great.
pub fn within_reach(sprite1: &BasicSprite, sprite2: &BasicSprite) -> (near: bool)
    ensures
        near == !too_far_apart(sprite1@, sprite2@),
{
    let width1: i128 = sprite1.get_width() as i128;
    let height1: i128 = sprite1.get_height() as i128;
    let width2: i128 = sprite2.get_width() as i128;
    let height2: i128 = sprite2.get_height() as i128;
    let radius1: i128 = if width1 > height1 { width1 } else { height1 };
    let radius2: i128 = if width2 > height2 { width2 } else { height2 };
    let reach: i128 = (REACH_PERCENT as i128) * (radius1 + radius2);
    let position1: Point = sprite1.get_position();
    let position2: Point = sprite2.get_position();
    let diff_x: i128 = position1.0 as i128 - position2.0 as i128;
    let diff_y: i128 = position1.1 as i128 - position2.1 as i128;
    proof {
        lemma_square_bound(reach as int, 0x100_0000_0000);
        lemma_square_bound(diff_x as int, 0x1_0000_0000);
        lemma_square_bound(diff_y as int, 0x1_0000_0000);
        assert(diff_x * diff_x <= 0x1_0000_0000_0000_0000) by (nonlinear_arith)
            requires
                -0x1_0000_0000 <= diff_x <= 0x1_0000_0000,
        ;
        assert(diff_y * diff_y <= 0x1_0000_0000_0000_0000) by (nonlinear_arith)
            requires
                -0x1_0000_0000 <= diff_y <= 0x1_0000_0000,
        ;
    }
    let reach_squared: i128 = reach * reach;
    let diff_x2: i128 = diff_x * diff_x;
    if 10000 * diff_x2 > reach_squared {
        return false;
    }
    let diff_y2: i128 = diff_y * diff_y;
    if 10000 * diff_y2 > reach_squared {
        return false;
    }
    let distance: i128 = diff_x2 + diff_y2;
    if 10000 * distance > reach_squared {
        return false;
    }
    true
}

/// Tells whether two sprites collide: the cheap test first, and the
/// separating-axis test on the two hit boxes only where that does not
/// reject the pair.
pub fn check_for_collision(sprite1: &BasicSprite, sprite2: &BasicSprite) -> (hit: bool)
    ensures
        hit == sprites_collide(sprite1@, sprite2@),
        hit ==> polygons_intersect(sprite1@.world_polygon(), sprite2@.world_polygon()),
{
    if !within_reach(sprite1, sprite2) {
        return false;
    }
    let points1 = sprite1.hit_box().snapshot();
    let points2 = sprite2.hit_box().snapshot();
    are_polygons_intersecting_native(&points1, &points2)
}

/// The sprites of `sprite_list` with which `sprite` collides, as their places
/// in the list, in the order of the list. A sprite that is itself in the list
/// is tested like any other.
pub fn check_for_collision_with_list(sprite: &BasicSprite, sprite_list: &Vec<BasicSprite>) -> (found:
    Vec<usize>)
    ensures
        found@ == colliding_indices(sprite@, sprite_list@, sprite_list@.len() as int),
{
    let mut final_sprites: Vec<usize> = Vec::new();
    let main_points = sprite.hit_box().snapshot();
    let mut i: usize = 0;
    while i < sprite_list.len()
        invariant
            i <= sprite_list.len(),
            main_points@ == sprite@.world_polygon(),
            final_sprites@ == colliding_indices(sprite@, sprite_list@, i as int),
        decreases sprite_list.len() - i,
    {
        let other = &sprite_list[i];
        if within_reach(sprite, other) {
            let other_points = other.hit_box().snapshot();
            if are_polygons_intersecting_native(&main_points, &other_points) {
                final_sprites.push(i);
            }
        }
        i += 1;
    }
    final_sprites
}

/// The sprites of several lists with which `sprite` collides, each as the
/// number of its list and its place there: the lists in the order given, and
/// each in its own order. A sprite that is in two lists is found twice.
pub fn check_for_collision_with_lists(
    sprite: &BasicSprite,
    sprite_lists: &Vec<Vec<BasicSprite>>,
) -> (found: Vec<(usize, usize)>)
    ensures
        found@ == colliding_in_lists(sprite@, sprite_lists@, sprite_lists@.len() as int),
{
    let mut final_sprites: Vec<(usize, usize)> = Vec::new();
    let mut l: usize = 0;
    while l < sprite_lists.len()
        invariant
            l <= sprite_lists.len(),
            final_sprites@ == colliding_in_lists(sprite@, sprite_lists@, l as int),
        decreases sprite_lists.len() - l,
    {
        let in_this = check_for_collision_with_list(sprite, &sprite_lists[l]);
        let ghost before = final_sprites@;
        let mut k: usize = 0;
        while k < in_this.len()
            invariant
                k <= in_this.len(),
                final_sprites@ == before + in_list(l, in_this@).take(k as int),
            decreases in_this.len() - k,
        {
            final_sprites.push((l, in_this[k]));
            k += 1;
        }
        l += 1;
    }
    final_sprites
}

/// The first test is only a short cut: sprites that collide have hit boxes
/// that intersect.
pub proof fn lemma_collision_implies_intersection(a: BasicSpriteView, b: BasicSpriteView)
    ensures
        sprites_collide(a, b) ==> polygons_intersect(a.world_polygon(), b.world_polygon()),
{
}

/// Whether two sprites collide does not depend on which is named first.
pub proof fn lemma_sprites_collide_symmetric(a: BasicSpriteView, b: BasicSpriteView)
    ensures
        sprites_collide(a, b) == sprites_collide(b, a),
{
    lemma_polygons_intersect_symmetric(a.world_polygon(), b.world_polygon());
    let dx = a.position().0 - b.position().0;
    let dy = a.position().1 - b.position().1;
    assert(dx * dx == (-dx) * (-dx)) by (nonlinear_arith);
    assert(dy * dy == (-dy) * (-dy)) by (nonlinear_arith);
}

/// What the search of one list returns, said without counting: the places
/// come in rising order, and a place is among them exactly if it is in the
/// list and `sprite` collides with the sprite there.
pub proof fn lemma_colliding_indices_characterized(
    sprite: BasicSpriteView,
    list: Seq<BasicSprite>,
    k: int,
)
    requires
        0 <= k <= list.len(),
        k <= usize::MAX,
    ensures
        forall|m: int, n: int|
            0 <= m < n < colliding_indices(sprite, list, k).len() ==> colliding_indices(
                sprite,
                list,
                k,
            )[m] < colliding_indices(sprite, list, k)[n],
        forall|m: int|
            0 <= m < colliding_indices(sprite, list, k).len() ==> {
                &&& (#[trigger] colliding_indices(sprite, list, k)[m]) < k
                &&& sprites_collide(sprite, list[colliding_indices(sprite, list, k)[m] as int]@)
            },
        forall|i: int|
            0 <= i < k && sprites_collide(sprite, (#[trigger] list[i])@) ==> colliding_indices(
                sprite,
                list,
                k,
            ).contains(i as usize),
    decreases k,
{
    if k > 0 {
        lemma_colliding_indices_characterized(sprite, list, k - 1);
        let shorter = colliding_indices(sprite, list, k - 1);
        let all = colliding_indices(sprite, list, k);
        assert forall|i: int| 0 <= i < k && sprites_collide(sprite, (#[trigger] list[i])@) implies all.contains(
            i as usize,
        ) by {
            if i < k - 1 {
                assert(shorter.contains(i as usize));
                let m = choose|m: int| 0 <= m < shorter.len() && shorter[m] == i as usize;
                assert(all[m] == i as usize);
            } else {
                assert(all[all.len() - 1] == i as usize);
            }
        }
    }
}

} // verus!
