use vstd::prelude::*;
use crate::fixed::{fixed_mul, mul_scaled, saturate, saturate_wide, Point, Scalar, UNIT};
use crate::rotation::{lemma_scale_down_of_multiple, rotate, rotated_x, rotated_y, Rotation};

verus! {

/// One coordinate of a point of the hit box, brought into the world: scaled,
/// moved by the position's coordinate, and kept inside the scalar range.
pub open spec fn adjust(v: int, scale: Scalar, offset: Scalar) -> Scalar {
    saturate(fixed_mul(v, scale as int) + offset) as i32
}

/// A point of the hit box, brought into the world: scaled along each axis,
/// then moved by `position`.
pub open spec fn adjust_point(p: Point, position: Point, scale: Point) -> Point {
    (adjust(p.0 as int, scale.0, position.0), adjust(p.1 as int, scale.1, position.1))
}

/// The polygon of a hit box in the world, vertex by vertex.
pub open spec fn adjusted_points(points: Seq<Point>, position: Point, scale: Point) -> Seq<Point> {
    Seq::new(points.len(), |i: int| adjust_point(points[i], position, scale))
}

/// What a hit box is, apart from what it remembers of earlier queries.
pub struct HitBoxView {
    /// The polygon in the sprite's own frame.
    pub points: Seq<Point>,
    /// Where the sprite's origin is in the world.
    pub position: Point,
    /// The scale factor along each axis.
    pub scale: Point,
}

impl HitBoxView {
    /// The polygon in the world.
    pub open spec fn adjusted(self) -> Seq<Point> {
        adjusted_points(self.points, self.position, self.scale)
    }
}

/// A hit box that cannot be rotated: a polygon in the sprite's own frame with
/// a position and a scale. It remembers its polygon in the world until one of
/// them changes.
pub struct HitBox {
    points: Vec<Point>,
    position: Point,
    scale: Point,
    adjusted_cache: Vec<Point>,
    cache_dirty: bool,
}

impl View for HitBox {
    type V = HitBoxView;

    closed spec fn view(&self) -> HitBoxView {
        HitBoxView { points: self.points@, position: self.position, scale: self.scale }
    }
}

/// Brings one coordinate into the world.
fn adjust_coordinate(v: i128, scale: Scalar, offset: Scalar) -> (r: Scalar)
    requires
        -0x1_0000_0000_0000_0000 <= v <= 0x1_0000_0000_0000_0000,
    ensures
        r == adjust(v as int, scale, offset),
{
    saturate_wide(mul_scaled(v, scale) + offset as i128)
}

/// A copy of a polygon.
pub(crate) fn copy_points(points: &Vec<Point>) -> (copy: Vec<Point>)
    ensures
        copy@ == points@,
{
    let mut copy: Vec<Point> = Vec::with_capacity(points.len());
    let mut i: usize = 0;
    while i < points.len()
        invariant
            i <= points.len(),
            copy@ == points@.take(i as int),
        decreases points.len() - i,
    {
        copy.push(points[i]);
        i += 1;
    }
    copy
}

/// Brings a whole polygon into the world.
fn adjust_all(points: &Vec<Point>, position: Point, scale: Point) -> (adjusted: Vec<Point>)
    ensures
        adjusted@ == adjusted_points(points@, position, scale),
{
    let mut adjusted: Vec<Point> = Vec::with_capacity(points.len());
    let mut i: usize = 0;
    while i < points.len()
        invariant
            i <= points.len(),
            adjusted@ == adjusted_points(points@, position, scale).take(i as int),
        decreases points.len() - i,
    {
        let point = points[i];
        let x = adjust_coordinate(point.0 as i128, scale.0, position.0);
        let y = adjust_coordinate(point.1 as i128, scale.1, position.1);
        adjusted.push((x, y));
        i += 1;
    }
    adjusted
}

/// `v` is the least `x` among the vertices of `polygon`.
pub open spec fn is_least_x(v: Scalar, polygon: Seq<Point>) -> bool {
    &&& exists|i: int| 0 <= i < polygon.len() && (#[trigger] polygon[i]).0 == v
    &&& forall|i: int| 0 <= i < polygon.len() ==> v <= (#[trigger] polygon[i]).0
}

/// `v` is the greatest `x` among the vertices of `polygon`.
pub open spec fn is_greatest_x(v: Scalar, polygon: Seq<Point>) -> bool {
    &&& exists|i: int| 0 <= i < polygon.len() && (#[trigger] polygon[i]).0 == v
    &&& forall|i: int| 0 <= i < polygon.len() ==> v >= (#[trigger] polygon[i]).0
}

/// `v` is the least `y` among the vertices of `polygon`.
pub open spec fn is_least_y(v: Scalar, polygon: Seq<Point>) -> bool {
    &&& exists|i: int| 0 <= i < polygon.len() && (#[trigger] polygon[i]).1 == v
    &&& forall|i: int| 0 <= i < polygon.len() ==> v <= (#[trigger] polygon[i]).1
}

/// `v` is the greatest `y` among the vertices of `polygon`.
pub open spec fn is_greatest_y(v: Scalar, polygon: Seq<Point>) -> bool {
    &&& exists|i: int| 0 <= i < polygon.len() && (#[trigger] polygon[i]).1 == v
    &&& forall|i: int| 0 <= i < polygon.len() ==> v >= (#[trigger] polygon[i]).1
}

/// The least `x` among the vertices of a polygon that has a vertex.
pub open spec fn least_x_of(polygon: Seq<Point>) -> Scalar {
    choose|v: Scalar| is_least_x(v, polygon)
}

/// The greatest `x` among the vertices of a polygon that has a vertex.
pub open spec fn greatest_x_of(polygon: Seq<Point>) -> Scalar {
    choose|v: Scalar| is_greatest_x(v, polygon)
}

/// The least `y` among the vertices of a polygon that has a vertex.
pub open spec fn least_y_of(polygon: Seq<Point>) -> Scalar {
    choose|v: Scalar| is_least_y(v, polygon)
}

/// The greatest `y` among the vertices of a polygon that has a vertex.
pub open spec fn greatest_y_of(polygon: Seq<Point>) -> Scalar {
    choose|v: Scalar| is_greatest_y(v, polygon)
}

/// A polygon has one least and one greatest coordinate along each axis:
/// whatever meets the description is the value that the four functions
/// above name.
pub proof fn lemma_extremes_are_unique(polygon: Seq<Point>, v: Scalar)
    ensures
        is_least_x(v, polygon) ==> least_x_of(polygon) == v,
        is_greatest_x(v, polygon) ==> greatest_x_of(polygon) == v,
        is_least_y(v, polygon) ==> least_y_of(polygon) == v,
        is_greatest_y(v, polygon) ==> greatest_y_of(polygon) == v,
{
}

/// The least `x` of a polygon with at least one vertex.
pub(crate) fn least_x(polygon: &Vec<Point>) -> (v: Scalar)
    requires
        polygon.len() > 0,
    ensures
        is_least_x(v, polygon@),
{
    let mut v: Scalar = polygon[0].0;
    let mut k: usize = 1;
    while k < polygon.len()
        invariant
            1 <= k <= polygon.len(),
            exists|i: int| 0 <= i < k && (#[trigger] polygon@[i]).0 == v,
            forall|i: int| 0 <= i < k ==> v <= (#[trigger] polygon@[i]).0,
        decreases polygon.len() - k,
    {
        if polygon[k].0 < v {
            v = polygon[k].0;
        }
        k += 1;
    }
    v
}

/// The greatest `x` of a polygon with at least one vertex.
pub(crate) fn greatest_x(polygon: &Vec<Point>) -> (v: Scalar)
    requires
        polygon.len() > 0,
    ensures
        is_greatest_x(v, polygon@),
{
    let mut v: Scalar = polygon[0].0;
    let mut k: usize = 1;
    while k < polygon.len()
        invariant
            1 <= k <= polygon.len(),
            exists|i: int| 0 <= i < k && (#[trigger] polygon@[i]).0 == v,
            forall|i: int| 0 <= i < k ==> v >= (#[trigger] polygon@[i]).0,
        decreases polygon.len() - k,
    {
        if polygon[k].0 > v {
            v = polygon[k].0;
        }
        k += 1;
    }
    v
}

/// The least `y` of a polygon with at least one vertex.
pub(crate) fn least_y(polygon: &Vec<Point>) -> (v: Scalar)
    requires
        polygon.len() > 0,
    ensures
        is_least_y(v, polygon@),
{
    let mut v: Scalar = polygon[0].1;
    let mut k: usize = 1;
    while k < polygon.len()
        invariant
            1 <= k <= polygon.len(),
            exists|i: int| 0 <= i < k && (#[trigger] polygon@[i]).1 == v,
            forall|i: int| 0 <= i < k ==> v <= (#[trigger] polygon@[i]).1,
        decreases polygon.len() - k,
    {
        if polygon[k].1 < v {
            v = polygon[k].1;
        }
        k += 1;
    }
    v
}

/// The greatest `y` of a polygon with at least one vertex.
pub(crate) fn greatest_y(polygon: &Vec<Point>) -> (v: Scalar)
    requires
        polygon.len() > 0,
    ensures
        is_greatest_y(v, polygon@),
{
    let mut v: Scalar = polygon[0].1;
    let mut k: usize = 1;
    while k < polygon.len()
        invariant
            1 <= k <= polygon.len(),
            exists|i: int| 0 <= i < k && (#[trigger] polygon@[i]).1 == v,
            forall|i: int| 0 <= i < k ==> v >= (#[trigger] polygon@[i]).1,
        decreases polygon.len() - k,
    {
        if polygon[k].1 > v {
            v = polygon[k].1;
        }
        k += 1;
    }
    v
}

/// What both kinds of hit box offer to a query that only reads the polygon
/// in the world.
pub trait NativeAdjustedPoints {
    /// The polygon in the world, as the hit box now stands.
    spec fn world_points(&self) -> Seq<Point>;

    /// The polygon in the world, borrowed from the hit box, which computes it
    /// afresh only if something has changed since it was last asked for.
    fn get_adjusted_points_native(&mut self) -> (adjusted: &Vec<Point>)
        ensures
            adjusted@ == old(self).world_points(),
            final(self).world_points() == old(self).world_points(),
    ;
}

impl NativeAdjustedPoints for HitBox {
    open spec fn world_points(&self) -> Seq<Point> {
        self@.adjusted()
    }

    fn get_adjusted_points_native(&mut self) -> (adjusted: &Vec<Point>)
        ensures
            final(self)@ == old(self)@,
            final(self).cache_valid(),
    {
        proof {
            use_type_invariant(&*self);
        }
        if self.cache_dirty {
            self.adjusted_cache = adjust_all(&self.points, self.position, self.scale);
            self.cache_dirty = false;
        }
        &self.adjusted_cache
    }
}

impl Clone for HitBox {
    /// A hit box of its own with the same polygon, position and scale, and
    /// with the same memory.
    fn clone(&self) -> (copy: HitBox)
        ensures
            copy@ == self@,
            copy.cache_valid() == self.cache_valid(),
    {
        proof {
            use_type_invariant(self);
        }
        HitBox {
            points: copy_points(&self.points),
            position: self.position,
            scale: self.scale,
            adjusted_cache: copy_points(&self.adjusted_cache),
            cache_dirty: self.cache_dirty,
        }
    }
}

impl HitBox {
    #[verifier::type_invariant]
    spec fn cache_agrees(self) -> bool {
        !self.cache_dirty ==> self.adjusted_cache@ == self@.adjusted()
    }

    /// Whether the remembered polygon can be handed out as it is.
    pub closed spec fn cache_valid(&self) -> bool {
        !self.cache_dirty
    }

    /// A hit box from its polygon. Without a position it stands at the
    /// origin; without a scale it has scale one on both axes. Nothing is
    /// remembered yet.
    pub fn new(points: Vec<Point>, position: Option<Point>, scale: Option<Point>) -> (hitbox: HitBox)
        ensures
            hitbox@.points == points@,
            hitbox@.position == match position {
                Some(p) => p,
                None => (0i32, 0i32),
            },
            hitbox@.scale == match scale {
                Some(s) => s,
                None => (UNIT, UNIT),
            },
            !hitbox.cache_valid(),
    {
        let final_position: Point = match position {
            Some(p) => p,
            None => (0, 0),
        };
        let final_scale: Point = match scale {
            Some(s) => s,
            None => (UNIT, UNIT),
        };
        HitBox {
            points,
            position: final_position,
            scale: final_scale,
            adjusted_cache: Vec::new(),
            cache_dirty: true,
        }
    }

    /// The polygon in the world. It is computed afresh only if something has
    /// changed since it was last asked for; what is returned is a copy.
    pub fn get_adjusted_points(&mut self) -> (adjusted: Vec<Point>)
        ensures
            adjusted@ == old(self)@.adjusted(),
            final(self)@ == old(self)@,
            final(self).cache_valid(),
    {
        proof {
            use_type_invariant(&*self);
        }
        if self.cache_dirty {
            self.adjusted_cache = adjust_all(&self.points, self.position, self.scale);
            self.cache_dirty = false;
        }
        copy_points(&self.adjusted_cache)
    }

    /// What the hit box remembers: nothing since it was made or last changed,
    /// or else its polygon in the world as it now is.
    pub fn remembered(&self) -> (memory: Option<Vec<Point>>)
        ensures
            memory.is_some() == self.cache_valid(),
            memory.is_some() ==> memory.unwrap()@ == self@.adjusted(),
    {
        proof {
            use_type_invariant(self);
        }
        if self.cache_dirty {
            None
        } else {
            Some(copy_points(&self.adjusted_cache))
        }
    }

    /// The polygon in the world, for a reader that may not change the hit
    /// box: what is remembered is used where it is good, and left as it is.
    pub fn snapshot(&self) -> (adjusted: Vec<Point>)
        ensures
            adjusted@ == self@.adjusted(),
    {
        proof {
            use_type_invariant(self);
        }
        if self.cache_dirty {
            adjust_all(&self.points, self.position, self.scale)
        } else {
            copy_points(&self.adjusted_cache)
        }
    }

    /// Moves the hit box; what was remembered is forgotten.
    pub fn set_position(&mut self, value: Point)
        ensures
            final(self)@ == (HitBoxView { position: value, ..old(self)@ }),
            !final(self).cache_valid(),
    {
        self.cache_dirty = true;
        self.position = value;
    }

    /// Rescales the hit box; what was remembered is forgotten.
    pub fn set_scale(&mut self, value: Point)
        ensures
            final(self)@ == (HitBoxView { scale: value, ..old(self)@ }),
            !final(self).cache_valid(),
    {
        self.cache_dirty = true;
        self.scale = value;
    }

    /// Gives the hit box another polygon; what was remembered is forgotten.
    pub fn set_points(&mut self, value: Vec<Point>)
        ensures
            final(self)@ == (HitBoxView { points: value@, ..old(self)@ }),
            !final(self).cache_valid(),
    {
        self.cache_dirty = true;
        self.points = value;
    }

    /// The polygon in the sprite's own frame.
    pub fn points(&self) -> (points: &Vec<Point>)
        ensures
            points@ == self@.points,
    {
        &self.points
    }

    /// Where the hit box stands.
    pub fn position(&self) -> (position: Point)
        ensures
            position == self@.position,
    {
        self.position
    }

    /// The scale along each axis.
    pub fn scale(&self) -> (scale: Point)
        ensures
            scale == self@.scale,
    {
        self.scale
    }

    /// A hit box of the same polygon, position and scale that can be
    /// rotated; without an angle it is not turned.
    pub fn create_rotatable(&self, angle: Option<Rotation>) -> (rotatable: RotatableHitBox)
        ensures
            rotatable@.points == self@.points,
            rotatable@.position == self@.position,
            rotatable@.scale == self@.scale,
            rotatable@.angle == match angle {
                Some(a) => a,
                None => Rotation::none(),
            },
            !rotatable.cache_valid(),
    {
        RotatableHitBox::new(
            copy_points(&self.points),
            Some(self.position),
            Some(self.scale),
            angle,
        )
    }

    /// The least `x` that the polygon reaches in the world.
    pub fn left(&mut self) -> (edge: Scalar)
        requires
            old(self)@.points.len() > 0,
        ensures
            is_least_x(edge, old(self)@.adjusted()),
            final(self)@ == old(self)@,
            final(self).cache_valid(),
    {
        least_x(self.get_adjusted_points_native())
    }

    /// The greatest `x` that the polygon reaches in the world.
    pub fn right(&mut self) -> (edge: Scalar)
        requires
            old(self)@.points.len() > 0,
        ensures
            is_greatest_x(edge, old(self)@.adjusted()),
            final(self)@ == old(self)@,
            final(self).cache_valid(),
    {
        greatest_x(self.get_adjusted_points_native())
    }

    /// The least `y` that the polygon reaches in the world.
    pub fn bottom(&mut self) -> (edge: Scalar)
        requires
            old(self)@.points.len() > 0,
        ensures
            is_least_y(edge, old(self)@.adjusted()),
            final(self)@ == old(self)@,
            final(self).cache_valid(),
    {
        least_y(self.get_adjusted_points_native())
    }

    /// The greatest `y` that the polygon reaches in the world.
    pub fn top(&mut self) -> (edge: Scalar)
        requires
            old(self)@.points.len() > 0,
        ensures
            is_greatest_y(edge, old(self)@.adjusted()),
            final(self)@ == old(self)@,
            final(self).cache_valid(),
    {
        greatest_y(self.get_adjusted_points_native())
    }
}

/// A point of a hit box that can be rotated, brought into the world: turned,
/// then scaled along each axis, then moved by `position`.
pub open spec fn adjust_rotated_point(
    p: Point,
    position: Point,
    scale: Point,
    angle: Rotation,
) -> Point {
    (
        adjust(rotated_x(p.0 as int, p.1 as int, angle), scale.0, position.0),
        adjust(rotated_y(p.0 as int, p.1 as int, angle), scale.1, position.1),
    )
}

/// The polygon of a hit box that can be rotated in the world, vertex by
/// vertex.
pub open spec fn adjusted_rotated_points(
    points: Seq<Point>,
    position: Point,
    scale: Point,
    angle: Rotation,
) -> Seq<Point> {
    Seq::new(points.len(), |i: int| adjust_rotated_point(points[i], position, scale, angle))
}

/// What a hit box that can be rotated is, apart from what it remembers of
/// earlier queries.
pub struct RotatableHitBoxView {
    /// The polygon in the sprite's own frame.
    pub points: Seq<Point>,
    /// Where the sprite's origin is in the world.
    pub position: Point,
    /// The scale factor along each axis.
    pub scale: Point,
    /// How far the polygon is turned.
    pub angle: Rotation,
}

impl RotatableHitBoxView {
    /// The polygon in the world.
    pub open spec fn adjusted(self) -> Seq<Point> {
        adjusted_rotated_points(self.points, self.position, self.scale, self.angle)
    }
}

/// A hit box that can be rotated: its polygon is turned before it is scaled
/// and moved.
pub struct RotatableHitBox {
    points: Vec<Point>,
    position: Point,
    scale: Point,
    angle: Rotation,
    adjusted_cache: Vec<Point>,
    cache_dirty: bool,
}

impl View for RotatableHitBox {
    type V = RotatableHitBoxView;

    closed spec fn view(&self) -> RotatableHitBoxView {
        RotatableHitBoxView {
            points: self.points@,
            position: self.position,
            scale: self.scale,
            angle: self.angle,
        }
    }
}

/// Brings a whole polygon into the world, turned by `angle`.
fn adjust_all_rotated(points: &Vec<Point>, position: Point, scale: Point, angle: Rotation) -> (adjusted:
    Vec<Point>)
    ensures
        adjusted@ == adjusted_rotated_points(points@, position, scale, angle),
{
    let mut adjusted: Vec<Point> = Vec::with_capacity(points.len());
    let mut i: usize = 0;
    while i < points.len()
        invariant
            i <= points.len(),
            adjusted@ == adjusted_rotated_points(points@, position, scale, angle).take(i as int),
        decreases points.len() - i,
    {
        let turned = rotate(points[i], angle);
        let x = adjust_coordinate(turned.0, scale.0, position.0);
        let y = adjust_coordinate(turned.1, scale.1, position.1);
        adjusted.push((x, y));
        i += 1;
    }
    adjusted
}

impl NativeAdjustedPoints for RotatableHitBox {
    open spec fn world_points(&self) -> Seq<Point> {
        self@.adjusted()
    }

    fn get_adjusted_points_native(&mut self) -> (adjusted: &Vec<Point>)
        ensures
            final(self)@ == old(self)@,
            final(self).cache_valid(),
    {
        proof {
            use_type_invariant(&*self);
        }
        if self.cache_dirty {
            self.adjusted_cache =
            adjust_all_rotated(&self.points, self.position, self.scale, self.angle);
            self.cache_dirty = false;
        }
        &self.adjusted_cache
    }
}

impl Clone for RotatableHitBox {
    /// A hit box of its own with the same polygon, position, scale and
    /// angle, and with the same memory.
    fn clone(&self) -> (copy: RotatableHitBox)
        ensures
            copy@ == self@,
            copy.cache_valid() == self.cache_valid(),
    {
        proof {
            use_type_invariant(self);
        }
        RotatableHitBox {
            points: copy_points(&self.points),
            position: self.position,
            scale: self.scale,
            angle: self.angle,
            adjusted_cache: copy_points(&self.adjusted_cache),
            cache_dirty: self.cache_dirty,
        }
    }
}

impl RotatableHitBox {
    #[verifier::type_invariant]
    spec fn cache_agrees(self) -> bool {
        !self.cache_dirty ==> self.adjusted_cache@ == self@.adjusted()
    }

    /// Whether the remembered polygon can be handed out as it is.
    pub closed spec fn cache_valid(&self) -> bool {
        !self.cache_dirty
    }

    /// A hit box that can be rotated, from its polygon. Without a position it
    /// stands at the origin; without a scale it has scale one on both axes;
    /// without an angle it is not turned. Nothing is remembered yet.
    pub fn new(
        points: Vec<Point>,
        position: Option<Point>,
        scale: Option<Point>,
        angle: Option<Rotation>,
    ) -> (hitbox: RotatableHitBox)
        ensures
            hitbox@.points == points@,
            hitbox@.position == match position {
                Some(p) => p,
                None => (0i32, 0i32),
            },
            hitbox@.scale == match scale {
                Some(s) => s,
                None => (UNIT, UNIT),
            },
            hitbox@.angle == match angle {
                Some(a) => a,
                None => Rotation::none(),
            },
            !hitbox.cache_valid(),
    {
        let final_position: Point = match position {
            Some(p) => p,
            None => (0, 0),
        };
        let final_scale: Point = match scale {
            Some(s) => s,
            None => (UNIT, UNIT),
        };
        let final_angle: Rotation = match angle {
            Some(a) => a,
            None => Rotation::identity(),
        };
        RotatableHitBox {
            points,
            position: final_position,
            scale: final_scale,
            angle: final_angle,
            adjusted_cache: Vec::new(),
            cache_dirty: true,
        }
    }

    /// Another hit box of the same polygon, position and scale, turned by
    /// `angle`; without an angle it is not turned.
    pub fn create_rotatable(&self, angle: Option<Rotation>) -> (rotatable: RotatableHitBox)
        ensures
            rotatable@.points == self@.points,
            rotatable@.position == self@.position,
            rotatable@.scale == self@.scale,
            rotatable@.angle == match angle {
                Some(a) => a,
                None => Rotation::none(),
            },
            !rotatable.cache_valid(),
    {
        RotatableHitBox::new(
            copy_points(&self.points),
            Some(self.position),
            Some(self.scale),
            angle,
        )
    }

    /// The polygon in the world. It is computed afresh only if something has
    /// changed since it was last asked for; what is returned is a copy.
    pub fn get_adjusted_points(&mut self) -> (adjusted: Vec<Point>)
        ensures
            adjusted@ == old(self)@.adjusted(),
            final(self)@ == old(self)@,
            final(self).cache_valid(),
    {
        proof {
            use_type_invariant(&*self);
        }
        if self.cache_dirty {
            self.adjusted_cache =
            adjust_all_rotated(&self.points, self.position, self.scale, self.angle);
            self.cache_dirty = false;
        }
        copy_points(&self.adjusted_cache)
    }

    /// What the hit box remembers: nothing since it was made or last changed,
    /// or else its polygon in the world as it now is.
    pub fn remembered(&self) -> (memory: Option<Vec<Point>>)
        ensures
            memory.is_some() == self.cache_valid(),
            memory.is_some() ==> memory.unwrap()@ == self@.adjusted(),
    {
        proof {
            use_type_invariant(self);
        }
        if self.cache_dirty {
            None
        } else {
            Some(copy_points(&self.adjusted_cache))
        }
    }

    /// The polygon in the world, for a reader that may not change the hit
    /// box: what is remembered is used where it is good, and left as it is.
    pub fn snapshot(&self) -> (adjusted: Vec<Point>)
        ensures
            adjusted@ == self@.adjusted(),
    {
        proof {
            use_type_invariant(self);
        }
        if self.cache_dirty {
            adjust_all_rotated(&self.points, self.position, self.scale, self.angle)
        } else {
            copy_points(&self.adjusted_cache)
        }
    }

    /// Moves the hit box; what was remembered is forgotten.
    pub fn set_position(&mut self, value: Point)
        ensures
            final(self)@ == (RotatableHitBoxView { position: value, ..old(self)@ }),
            !final(self).cache_valid(),
    {
        self.cache_dirty = true;
        self.position = value;
    }

    /// Rescales the hit box; what was remembered is forgotten.
    pub fn set_scale(&mut self, value: Point)
        ensures
            final(self)@ == (RotatableHitBoxView { scale: value, ..old(self)@ }),
            !final(self).cache_valid(),
    {
        self.cache_dirty = true;
        self.scale = value;
    }

    /// Turns the hit box to another angle; what was remembered is forgotten.
    pub fn set_angle(&mut self, value: Rotation)
        ensures
            final(self)@ == (RotatableHitBoxView { angle: value, ..old(self)@ }),
            !final(self).cache_valid(),
    {
        self.cache_dirty = true;
        self.angle = value;
    }

    /// Gives the hit box another polygon; what was remembered is forgotten.
    pub fn set_points(&mut self, value: Vec<Point>)
        ensures
            final(self)@ == (RotatableHitBoxView { points: value@, ..old(self)@ }),
            !final(self).cache_valid(),
    {
        self.cache_dirty = true;
        self.points = value;
    }

    /// The polygon in the sprite's own frame.
    pub fn points(&self) -> (points: &Vec<Point>)
        ensures
            points@ == self@.points,
    {
        &self.points
    }

    /// Where the hit box stands.
    pub fn position(&self) -> (position: Point)
        ensures
            position == self@.position,
    {
        self.position
    }

    /// The scale along each axis.
    pub fn scale(&self) -> (scale: Point)
        ensures
            scale == self@.scale,
    {
        self.scale
    }

    /// How far the polygon is turned.
    pub fn angle(&self) -> (angle: Rotation)
        ensures
            angle == self@.angle,
    {
        self.angle
    }

    /// The least `x` that the polygon reaches in the world.
    pub fn left(&mut self) -> (edge: Scalar)
        requires
            old(self)@.points.len() > 0,
        ensures
            is_least_x(edge, old(self)@.adjusted()),
            final(self)@ == old(self)@,
            final(self).cache_valid(),
    {
        least_x(self.get_adjusted_points_native())
    }

    /// The greatest `x` that the polygon reaches in the world.
    pub fn right(&mut self) -> (edge: Scalar)
        requires
            old(self)@.points.len() > 0,
        ensures
            is_greatest_x(edge, old(self)@.adjusted()),
            final(self)@ == old(self)@,
            final(self).cache_valid(),
    {
        greatest_x(self.get_adjusted_points_native())
    }

    /// The least `y` that the polygon reaches in the world.
    pub fn bottom(&mut self) -> (edge: Scalar)
        requires
            old(self)@.points.len() > 0,
        ensures
            is_least_y(edge, old(self)@.adjusted()),
            final(self)@ == old(self)@,
            final(self).cache_valid(),
    {
        least_y(self.get_adjusted_points_native())
    }

    /// The greatest `y` that the polygon reaches in the world.
    pub fn top(&mut self) -> (edge: Scalar)
        requires
            old(self)@.points.len() > 0,
        ensures
            is_greatest_y(edge, old(self)@.adjusted()),
            final(self)@ == old(self)@,
            final(self).cache_valid(),
    {
        greatest_y(self.get_adjusted_points_native())
    }
}

/// A hit box at the origin with scale one has its own polygon as its polygon
/// in the world.
pub proof fn lemma_unit_scale_at_origin(points: Seq<Point>)
    ensures
        adjusted_points(points, (0i32, 0i32), (UNIT, UNIT)) == points,
{
    assert forall|i: int| 0 <= i < points.len() implies adjust_point(
        points[i],
        (0i32, 0i32),
        (UNIT, UNIT),
    ) == points[i] by {
        lemma_scale_down_of_multiple(points[i].0 as int);
        lemma_scale_down_of_multiple(points[i].1 as int);
    }
    assert(adjusted_points(points, (0i32, 0i32), (UNIT, UNIT)) =~= points);
}

/// A hit box that can be rotated and is not turned has the polygon in the
/// world of the hit box that cannot be rotated.
pub proof fn lemma_no_rotation_changes_nothing(points: Seq<Point>, position: Point, scale: Point)
    ensures
        adjusted_rotated_points(points, position, scale, Rotation::none()) == adjusted_points(
            points,
            position,
            scale,
        ),
{
    assert forall|i: int| 0 <= i < points.len() implies adjust_rotated_point(
        points[i],
        position,
        scale,
        Rotation::none(),
    ) == adjust_point(points[i], position, scale) by {
        let x = points[i].0 as int;
        let y = points[i].1 as int;
        lemma_scale_down_of_multiple(x);
        lemma_scale_down_of_multiple(y);
        assert(y * 0 == 0 && x * 0 == 0) by (nonlinear_arith);
    }
    assert(adjusted_rotated_points(points, position, scale, Rotation::none())
        =~= adjusted_points(points, position, scale));
}

} // verus!
