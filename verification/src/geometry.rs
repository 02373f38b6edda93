use vstd::prelude::*;
use crate::fixed::{Point, Scalar};

verus! {

/// The turn that three points make, taken in order.
#[derive(Clone, Copy, Debug, PartialEq, Eq, Structural)]
pub enum Orientation {
    /// The three points lie on one line.
    Collinear,
    /// Going from the first point through the second to the third turns right.
    Clockwise,
    /// Going from the first point through the second to the third turns left.
    CounterClockwise,
}

/// The cross product `(q - p) x (r - q)`, with the sign under which a right
/// turn is positive.
pub open spec fn cross(p: Point, q: Point, r: Point) -> int {
    (q.1 - p.1) * (r.0 - q.0) - (q.0 - p.0) * (r.1 - q.1)
}

/// The orientation of `p`, `q`, `r`: the sign of their cross product.
pub open spec fn orientation(p: Point, q: Point, r: Point) -> Orientation {
    if cross(p, q, r) == 0 {
        Orientation::Collinear
    } else if cross(p, q, r) > 0 {
        Orientation::Clockwise
    } else {
        Orientation::CounterClockwise
    }
}

/// Whether `q` lies in the axis-aligned box spanned by `p` and `r`, its four
/// sides included.
pub open spec fn point_in_closed_bounding_box(p: Point, q: Point, r: Point) -> bool {
    &&& q.0 <= p.0 || q.0 <= r.0
    &&& q.0 >= p.0 || q.0 >= r.0
    &&& q.1 <= p.1 || q.1 <= r.1
    &&& q.1 >= p.1 || q.1 >= r.1
}

/// Whether the closed segments `p1 q1` and `p2 q2` meet: either each segment
/// has the other's end points on different sides, or an end point of one lies
/// on the other's line and inside its bounding box.
pub open spec fn segments_intersect(p1: Point, q1: Point, p2: Point, q2: Point) -> bool {
    let o1 = orientation(p1, q1, p2);
    let o2 = orientation(p1, q1, q2);
    let o3 = orientation(p2, q2, p1);
    let o4 = orientation(p2, q2, q1);
    ||| (o1 != o2 && o3 != o4)
    ||| (o1 == Orientation::Collinear && point_in_closed_bounding_box(p1, p2, q1))
    ||| (o2 == Orientation::Collinear && point_in_closed_bounding_box(p1, q2, q1))
    ||| (o3 == Orientation::Collinear && point_in_closed_bounding_box(p2, p1, q2))
    ||| (o4 == Orientation::Collinear && point_in_closed_bounding_box(p2, q1, q2))
}

/// The product of two coordinate differences stays far inside 128 bits.
proof fn lemma_difference_product_bound(a: int, b: int)
    by (nonlinear_arith)
    requires
        -0x1_0000_0000 <= a <= 0x1_0000_0000,
        -0x1_0000_0000 <= b <= 0x1_0000_0000,
    ensures
        -0x1_0000_0000_0000_0000 <= a * b <= 0x1_0000_0000_0000_0000,
{
}

/// Tells whether `q` lies in the closed box spanned by `p` and `r`.
pub fn is_point_in_box(p: Point, q: Point, r: Point) -> (inside: bool)
    ensures
        inside == point_in_closed_bounding_box(p, q, r),
{
    let max_x: i32 = if p.0 >= r.0 { p.0 } else { r.0 };
    let min_x: i32 = if p.0 <= r.0 { p.0 } else { r.0 };
    let max_y: i32 = if p.1 >= r.1 { p.1 } else { r.1 };
    let min_y: i32 = if p.1 <= r.1 { p.1 } else { r.1 };
    q.0 <= max_x && q.0 >= min_x && q.1 <= max_y && q.1 >= min_y
}

/// Classifies the turn from `p` through `q` to `r`, exactly: the cross
/// product is formed without rounding, so a result of
/// [`Orientation::Collinear`] means the three points are on one line.
pub fn get_triangle_orientation(p: Point, q: Point, r: Point) -> (o: Orientation)
    ensures
        o == orientation(p, q, r),
{
    let dy1: i128 = q.1 as i128 - p.1 as i128;
    let dx2: i128 = r.0 as i128 - q.0 as i128;
    let dx1: i128 = q.0 as i128 - p.0 as i128;
    let dy2: i128 = r.1 as i128 - q.1 as i128;
    proof {
        lemma_difference_product_bound(dy1 as int, dx2 as int);
        lemma_difference_product_bound(dx1 as int, dy2 as int);
    }
    let val: i128 = dy1 * dx2 - dx1 * dy2;
    if val == 0 {
        Orientation::Collinear
    } else if val > 0 {
        Orientation::Clockwise
    } else {
        Orientation::CounterClockwise
    }
}

/// Tells whether the closed segments `p1 q1` and `p2 q2` meet, by the four
/// orientations of each segment with an end point of the other.
pub fn are_lines_intersecting(p1: Point, q1: Point, p2: Point, q2: Point) -> (meet: bool)
    ensures
        meet == segments_intersect(p1, q1, p2, q2),
{
    let o1 = get_triangle_orientation(p1, q1, p2);
    let o2 = get_triangle_orientation(p1, q1, q2);
    let o3 = get_triangle_orientation(p2, q2, p1);
    let o4 = get_triangle_orientation(p2, q2, q1);
    ((o1 != o2) && (o3 != o4))
        || ((o1 == Orientation::Collinear) && is_point_in_box(p1, p2, q1))
        || ((o2 == Orientation::Collinear) && is_point_in_box(p1, q2, q1))
        || ((o3 == Orientation::Collinear) && is_point_in_box(p2, p1, q2))
        || ((o4 == Orientation::Collinear) && is_point_in_box(p2, q1, q2))
}

/// The index of the vertex after `i` in a polygon of `n` vertices: the last
/// vertex is followed by the first.
pub open spec fn next_index(i: int, n: int) -> int {
    if i + 1 == n {
        0
    } else {
        i + 1
    }
}

/// The normal of the edge that leaves vertex `i` of `polygon`: the edge's
/// direction turned by a quarter.
pub open spec fn edge_normal(polygon: Seq<Point>, i: int) -> (int, int) {
    let from = polygon[i];
    let to = polygon[next_index(i, polygon.len() as int)];
    (to.1 - from.1, from.0 - to.0)
}

/// Where `p` falls along `axis`: their dot product.
pub open spec fn projection(axis: (int, int), p: Point) -> int {
    axis.0 * p.0 + axis.1 * p.1
}

/// Along `axis`, no point of `a` falls beyond any point of `b`: the interval
/// of `a` ends where the interval of `b` begins, or before.
pub open spec fn all_before(axis: (int, int), a: Seq<Point>, b: Seq<Point>) -> bool {
    forall|i: int, j: int|
        0 <= i < a.len() && 0 <= j < b.len() ==> #[trigger] projection(axis, a[i])
            <= #[trigger] projection(axis, b[j])
}

/// `axis` separates `a` from `b`: their intervals along it share at most an
/// end point.
pub open spec fn separates(axis: (int, int), a: Seq<Point>, b: Seq<Point>) -> bool {
    all_before(axis, a, b) || all_before(axis, b, a)
}

/// Some edge of `edges` has a normal that separates `a` from `b`.
pub open spec fn has_separating_edge(edges: Seq<Point>, a: Seq<Point>, b: Seq<Point>) -> bool {
    exists|i: int| 0 <= i < edges.len() && #[trigger] separates(edge_normal(edges, i), a, b)
}

/// The separating-axis test: two polygons intersect when both have a vertex
/// and no edge normal of either separates them. Polygons that only touch do
/// not intersect.
pub open spec fn polygons_intersect(a: Seq<Point>, b: Seq<Point>) -> bool {
    &&& a.len() > 0
    &&& b.len() > 0
    &&& !has_separating_edge(a, a, b)
    &&& !has_separating_edge(b, a, b)
}

/// The dot product of an edge normal with a point fits in 128 bits.
proof fn lemma_projection_bound(ax: int, ay: int, px: int, py: int)
    by (nonlinear_arith)
    requires
        -0x1_0000_0000 <= ax <= 0x1_0000_0000,
        -0x1_0000_0000 <= ay <= 0x1_0000_0000,
        -0x8000_0000 <= px <= 0x8000_0000,
        -0x8000_0000 <= py <= 0x8000_0000,
    ensures
        -0x8000_0000_0000_0000 <= ax * px <= 0x8000_0000_0000_0000,
        -0x8000_0000_0000_0000 <= ay * py <= 0x8000_0000_0000_0000,
{
}

/// The normal of the edge from vertex `i` to the vertex after it.
fn normal_of_edge(polygon: &Vec<Point>, i: usize) -> (normal: (i64, i64))
    requires
        i < polygon.len(),
    ensures
        (normal.0 as int, normal.1 as int) == edge_normal(polygon@, i as int),
{
    let i2: usize = if i + 1 == polygon.len() { 0 } else { i + 1 };
    let from = polygon[i];
    let to = polygon[i2];
    (to.1 as i64 - from.1 as i64, from.0 as i64 - to.0 as i64)
}

/// The dot product of `axis` with `p`.
fn project(axis: (i64, i64), p: Point) -> (at: i128)
    requires
        -0x1_0000_0000 <= axis.0 <= 0x1_0000_0000,
        -0x1_0000_0000 <= axis.1 <= 0x1_0000_0000,
    ensures
        at == projection((axis.0 as int, axis.1 as int), p),
{
    proof {
        lemma_projection_bound(axis.0 as int, axis.1 as int, p.0 as int, p.1 as int);
    }
    axis.0 as i128 * p.0 as i128 + axis.1 as i128 * p.1 as i128
}

/// The interval that `polygon` covers along `axis`: its least and greatest
/// projection, each reached at a vertex.
fn projected_interval(axis: (i64, i64), polygon: &Vec<Point>) -> (ends: (i128, i128))
    requires
        polygon.len() > 0,
        -0x1_0000_0000 <= axis.0 <= 0x1_0000_0000,
        -0x1_0000_0000 <= axis.1 <= 0x1_0000_0000,
    ensures
        forall|i: int|
            0 <= i < polygon.len() ==> ends.0 <= #[trigger] projection(
                (axis.0 as int, axis.1 as int),
                polygon@[i],
            ) <= ends.1,
        exists|i: int|
            0 <= i < polygon.len() && #[trigger] projection(
                (axis.0 as int, axis.1 as int),
                polygon@[i],
            ) == ends.0,
        exists|i: int|
            0 <= i < polygon.len() && #[trigger] projection(
                (axis.0 as int, axis.1 as int),
                polygon@[i],
            ) == ends.1,
{
    let ghost ax = (axis.0 as int, axis.1 as int);
    let mut low: i128 = project(axis, polygon[0]);
    let mut high: i128 = low;
    let mut k: usize = 1;
    while k < polygon.len()
        invariant
            1 <= k <= polygon.len(),
            ax == (axis.0 as int, axis.1 as int),
            -0x1_0000_0000 <= axis.0 <= 0x1_0000_0000,
            -0x1_0000_0000 <= axis.1 <= 0x1_0000_0000,
            forall|i: int| 0 <= i < k ==> low <= #[trigger] projection(ax, polygon@[i]) <= high,
            exists|i: int| 0 <= i < k && #[trigger] projection(ax, polygon@[i]) == low,
            exists|i: int| 0 <= i < k && #[trigger] projection(ax, polygon@[i]) == high,
        decreases polygon.len() - k,
    {
        let projected: i128 = project(axis, polygon[k]);
        if projected < low {
            low = projected;
        }
        if projected > high {
            high = projected;
        }
        k += 1;
    }
    (low, high)
}

/// Looks among the edges of `edges` for one whose normal separates `a` from
/// `b`.
fn find_separating_edge(edges: &Vec<Point>, a: &Vec<Point>, b: &Vec<Point>) -> (found: bool)
    requires
        a.len() > 0,
        b.len() > 0,
    ensures
        found == has_separating_edge(edges@, a@, b@),
{
    let mut i1: usize = 0;
    while i1 < edges.len()
        invariant
            i1 <= edges.len(),
            a.len() > 0,
            b.len() > 0,
            forall|i: int| 0 <= i < i1 ==> !#[trigger] separates(edge_normal(edges@, i), a@, b@),
        decreases edges.len() - i1,
    {
        let normal = normal_of_edge(edges, i1);
        let ghost axis = edge_normal(edges@, i1 as int);
        let (min_a, max_a) = projected_interval(normal, a);
        let (min_b, max_b) = projected_interval(normal, b);
        proof {
            assert(max_a <= min_b <==> all_before(axis, a@, b@));
            assert(max_b <= min_a <==> all_before(axis, b@, a@));
        }
        if max_a <= min_b || max_b <= min_a {
            assert(separates(edge_normal(edges@, i1 as int), a@, b@));
            return true;
        }
        i1 += 1;
    }
    false
}

/// The separating-axis test on two borrowed polygons.
///
/// Only the normals of the edges are tried as axes, so for a polygon that is
/// not convex the answer can be `true` although the two do not overlap: this
/// test is what the library means by intersection.
pub fn are_polygons_intersecting_native(poly_a: &Vec<Point>, poly_b: &Vec<Point>) -> (hit: bool)
    ensures
        hit == polygons_intersect(poly_a@, poly_b@),
        poly_a@.len() == 0 || poly_b@.len() == 0 ==> !hit,
{
    if poly_a.len() == 0 || poly_b.len() == 0 {
        return false;
    }
    if find_separating_edge(poly_a, poly_a, poly_b) {
        return false;
    }
    !find_separating_edge(poly_b, poly_a, poly_b)
}

/// The separating-axis test on two polygons given by value.
pub fn are_polygons_intersecting(poly_a: Vec<Point>, poly_b: Vec<Point>) -> (hit: bool)
    ensures
        hit == polygons_intersect(poly_a@, poly_b@),
        poly_a@.len() == 0 || poly_b@.len() == 0 ==> !hit,
{
    are_polygons_intersecting_native(&poly_a, &poly_b)
}

/// The far end of the horizontal ray that leaves `p` towards greater `x`: the
/// point at `p`'s height on the edge of the scalar range.
pub open spec fn ray_end(p: Point) -> Point {
    (i32::MAX, p.1)
}

/// The edge that leaves vertex `i` of `polygon` meets the ray from `p`.
pub open spec fn edge_meets_ray(polygon: Seq<Point>, i: int, p: Point) -> bool {
    segments_intersect(
        polygon[i],
        polygon[next_index(i, polygon.len() as int)],
        p,
        ray_end(p),
    )
}

/// The edge that leaves vertex `i` meets the ray from `p`, and `p` is on the
/// line through that edge.
pub open spec fn edge_in_line_with(polygon: Seq<Point>, i: int, p: Point) -> bool {
    &&& edge_meets_ray(polygon, i, p)
    &&& orientation(polygon[i], p, polygon[next_index(i, polygon.len() as int)])
        == Orientation::Collinear
}

/// Edge `i` is the first edge of `polygon`, in vertex order, that is in line
/// with `p`.
pub open spec fn is_first_edge_in_line(polygon: Seq<Point>, i: int, p: Point) -> bool {
    &&& 0 <= i < polygon.len()
    &&& edge_in_line_with(polygon, i, p)
    &&& forall|j: int| 0 <= j < i ==> !#[trigger] edge_in_line_with(polygon, j, p)
}

/// How many of the first `k` edges of `polygon` meet the ray from `p`.
pub open spec fn crossings(polygon: Seq<Point>, p: Point, k: int) -> int
    decreases k,
{
    if k <= 0 {
        0
    } else {
        crossings(polygon, p, k - 1) + if edge_meets_ray(polygon, k - 1, p) {
            1int
        } else {
            0int
        }
    }
}

/// How many of the first `k` vertices of `polygon` are at the height of `p`.
pub open spec fn level_vertices(polygon: Seq<Point>, p: Point, k: int) -> int
    decreases k,
{
    if k <= 0 {
        0
    } else {
        level_vertices(polygon, p, k - 1) + if polygon[k - 1].1 == p.1 {
            1int
        } else {
            0int
        }
    }
}

/// Containment by ray casting.
///
/// A polygon of fewer than three vertices contains nothing. Where an edge is
/// in line with `p`, the first such edge decides alone: `p` counts as
/// contained exactly if it lies outside that edge's bounding box, so a point
/// on that edge is not contained, and a point on its line beside it is.
/// Otherwise the edges that meet the ray are counted, the vertices at `p`'s
/// height are taken off once, and `p` is contained if what is left is
/// positive and odd.
pub open spec fn point_in_polygon(p: Point, polygon: Seq<Point>) -> bool {
    let n = polygon.len() as int;
    if n < 3 {
        false
    } else if exists|i: int| is_first_edge_in_line(polygon, i, p) {
        let i = choose|i: int| is_first_edge_in_line(polygon, i, p);
        !point_in_closed_bounding_box(polygon[i], p, polygon[next_index(i, n)])
    } else {
        let left = crossings(polygon, p, n) - level_vertices(polygon, p, n);
        left > 0 && left % 2 == 1
    }
}

/// Tells whether the point `(x, y)` is inside `polygon`, by casting a ray
/// from the point towards greater `x`.
pub fn is_point_in_polygon(x: Scalar, y: Scalar, polygon: Vec<Point>) -> (inside: bool)
    ensures
        inside == point_in_polygon((x, y), polygon@),
        polygon@.len() < 3 ==> !inside,
{
    let p: Point = (x, y);
    let n: usize = polygon.len();
    if n < 3 {
        return false;
    }
    let extreme: Point = (i32::MAX, p.1);
    let mut decrease: usize = 0;
    let mut count: usize = 0;
    let mut i: usize = 0;
    while i < n
        invariant
            i <= n,
            n == polygon.len(),
            n >= 3,
            p == (x, y),
            extreme == ray_end(p),
            count == crossings(polygon@, p, i as int),
            decrease == level_vertices(polygon@, p, i as int),
            count <= i,
            decrease <= i,
            forall|j: int| 0 <= j < i ==> !#[trigger] edge_in_line_with(polygon@, j, p),
        decreases n - i,
    {
        let next_item: usize = if i + 1 == n { 0 } else { i + 1 };
        if polygon[i].1 == p.1 {
            decrease += 1;
        }
        if are_lines_intersecting(polygon[i], polygon[next_item], p, extreme) {
            if get_triangle_orientation(polygon[i], p, polygon[next_item])
                == Orientation::Collinear {
                proof {
                    assert(is_first_edge_in_line(polygon@, i as int, p));
                }
                return !is_point_in_box(polygon[i], p, polygon[next_item]);
            }
            count += 1;
        }
        i += 1;
    }
    count > decrease && (count - decrease) % 2 == 1
}

/// The separating-axis test does not depend on which polygon is named
/// first.
pub proof fn lemma_polygons_intersect_symmetric(a: Seq<Point>, b: Seq<Point>)
    ensures
        polygons_intersect(a, b) == polygons_intersect(b, a),
{
    assert forall|edges: Seq<Point>|
        has_separating_edge(edges, a, b) == has_separating_edge(edges, b, a) by {
        if has_separating_edge(edges, a, b) {
            let i = choose|i: int|
                0 <= i < edges.len() && #[trigger] separates(edge_normal(edges, i), a, b);
            assert(separates(edge_normal(edges, i), b, a));
        }
        if has_separating_edge(edges, b, a) {
            let i = choose|i: int|
                0 <= i < edges.len() && #[trigger] separates(edge_normal(edges, i), b, a);
            assert(separates(edge_normal(edges, i), a, b));
        }
    }
}

/// A polygon without vertices intersects nothing, on either side.
pub proof fn lemma_empty_polygon_never_intersects(a: Seq<Point>, b: Seq<Point>)
    requires
        a.len() == 0 || b.len() == 0,
    ensures
        !polygons_intersect(a, b),
{
}

/// An edge without length separates: a polygon in which a vertex is
/// followed by itself intersects nothing, because along the zero normal of
/// that edge every projection is the same.
pub proof fn lemma_edge_without_length_separates(a: Seq<Point>, b: Seq<Point>, i: int)
    requires
        0 <= i < a.len(),
        a[i] == a[next_index(i, a.len() as int)],
    ensures
        !polygons_intersect(a, b),
        !polygons_intersect(b, a),
{
    let axis = edge_normal(a, i);
    assert(axis == (0int, 0int));
    assert forall|p: Point| #[trigger] projection(axis, p) == 0 by {
        assert(0 * p.0 + 0 * p.1 == 0) by (nonlinear_arith);
    }
    assert(all_before(axis, a, b));
    assert(separates(axis, a, b));
    assert(separates(axis, b, a));
    assert(has_separating_edge(a, a, b));
    assert(has_separating_edge(a, b, a));
}

/// The rectangle with sides along the axes that reaches from `low` to
/// `high`, its vertices taken with the clock from `low`.
pub open spec fn rectangle(low: Point, high: Point) -> Seq<Point> {
    seq![low, (low.0, high.1), high, (high.0, low.1)]
}

/// Multiplying by a positive number keeps the order, and so does dividing
/// by it.
proof fn lemma_positive_factor_keeps_order(k: int, u: int, v: int)
    by (nonlinear_arith)
    requires
        k > 0,
    ensures
        u <= v <==> k * u <= k * v,
{
}

/// Multiplying by a negative number turns the order round.
proof fn lemma_negative_factor_turns_order(k: int, u: int, v: int)
    by (nonlinear_arith)
    requires
        k < 0,
    ensures
        u <= v <==> k * v <= k * u,
{
}

/// Along an axis that runs with `x`, one rectangle comes before another
/// exactly if its `x` interval does, the way round decided by the sign of the
/// axis.
proof fn lemma_before_along_x(k: int, a_low: Point, a_high: Point, b_low: Point, b_high: Point)
    requires
        k != 0,
        a_low.0 < a_high.0,
        b_low.0 < b_high.0,
    ensures
        all_before((k, 0int), rectangle(a_low, a_high), rectangle(b_low, b_high)) <==> if k > 0 {
            a_high.0 <= b_low.0
        } else {
            b_high.0 <= a_low.0
        },
{
    let a = rectangle(a_low, a_high);
    let b = rectangle(b_low, b_high);
    let axis = (k, 0int);
    assert forall|p: Point| #[trigger] projection(axis, p) == k * p.0 by {
        assert(0 * p.1 == 0) by (nonlinear_arith);
    }
    if k > 0 {
        if all_before(axis, a, b) {
            assert(projection(axis, a[2]) <= projection(axis, b[0]));
            lemma_positive_factor_keeps_order(k, a[2].0 as int, b[0].0 as int);
        }
        if a_high.0 <= b_low.0 {
            assert forall|i: int, j: int| 0 <= i < a.len() && 0 <= j < b.len() implies projection(
                axis,
                a[i],
            ) <= projection(axis, b[j]) by {
                lemma_positive_factor_keeps_order(k, a[i].0 as int, b[j].0 as int);
            }
        }
    } else {
        if all_before(axis, a, b) {
            assert(projection(axis, a[0]) <= projection(axis, b[2]));
            lemma_negative_factor_turns_order(k, b[2].0 as int, a[0].0 as int);
        }
        if b_high.0 <= a_low.0 {
            assert forall|i: int, j: int| 0 <= i < a.len() && 0 <= j < b.len() implies projection(
                axis,
                a[i],
            ) <= projection(axis, b[j]) by {
                lemma_negative_factor_turns_order(k, b[j].0 as int, a[i].0 as int);
            }
        }
    }
}

/// Along an axis that runs with `y`, one rectangle comes before another
/// exactly if its `y` interval does, the way round decided by the sign of the
/// axis.
proof fn lemma_before_along_y(k: int, a_low: Point, a_high: Point, b_low: Point, b_high: Point)
    requires
        k != 0,
        a_low.1 < a_high.1,
        b_low.1 < b_high.1,
    ensures
        all_before((0int, k), rectangle(a_low, a_high), rectangle(b_low, b_high)) <==> if k > 0 {
            a_high.1 <= b_low.1
        } else {
            b_high.1 <= a_low.1
        },
{
    let a = rectangle(a_low, a_high);
    let b = rectangle(b_low, b_high);
    let axis = (0int, k);
    assert forall|p: Point| #[trigger] projection(axis, p) == k * p.1 by {
        assert(0 * p.0 == 0) by (nonlinear_arith);
    }
    if k > 0 {
        if all_before(axis, a, b) {
            assert(projection(axis, a[2]) <= projection(axis, b[0]));
            lemma_positive_factor_keeps_order(k, a[2].1 as int, b[0].1 as int);
        }
        if a_high.1 <= b_low.1 {
            assert forall|i: int, j: int| 0 <= i < a.len() && 0 <= j < b.len() implies projection(
                axis,
                a[i],
            ) <= projection(axis, b[j]) by {
                lemma_positive_factor_keeps_order(k, a[i].1 as int, b[j].1 as int);
            }
        }
    } else {
        if all_before(axis, a, b) {
            assert(projection(axis, a[0]) <= projection(axis, b[2]));
            lemma_negative_factor_turns_order(k, b[2].1 as int, a[0].1 as int);
        }
        if b_high.1 <= a_low.1 {
            assert forall|i: int, j: int| 0 <= i < a.len() && 0 <= j < b.len() implies projection(
                axis,
                a[i],
            ) <= projection(axis, b[j]) by {
                lemma_negative_factor_turns_order(k, b[j].1 as int, a[i].1 as int);
            }
        }
    }
}

/// An edge normal of a rectangle separates two rectangles exactly if their
/// intervals along `x`, or along `y`, share at most an end point.
proof fn lemma_rectangle_edges_separate(
    e_low: Point,
    e_high: Point,
    a_low: Point,
    a_high: Point,
    b_low: Point,
    b_high: Point,
)
    requires
        e_low.0 < e_high.0 && e_low.1 < e_high.1,
        a_low.0 < a_high.0 && a_low.1 < a_high.1,
        b_low.0 < b_high.0 && b_low.1 < b_high.1,
    ensures
        has_separating_edge(
            rectangle(e_low, e_high),
            rectangle(a_low, a_high),
            rectangle(b_low, b_high),
        ) <==> (a_high.0 <= b_low.0 || b_high.0 <= a_low.0 || a_high.1 <= b_low.1 || b_high.1
            <= a_low.1),
{
    let e = rectangle(e_low, e_high);
    let a = rectangle(a_low, a_high);
    let b = rectangle(b_low, b_high);
    let up = e_high.1 - e_low.1;
    let along = e_high.0 - e_low.0;
    assert(edge_normal(e, 0) == (up, 0int));
    assert(edge_normal(e, 1) == (0int, -along));
    assert(edge_normal(e, 2) == (-up, 0int));
    assert(edge_normal(e, 3) == (0int, along));
    lemma_before_along_x(up, a_low, a_high, b_low, b_high);
    lemma_before_along_x(up, b_low, b_high, a_low, a_high);
    lemma_before_along_x(-up, a_low, a_high, b_low, b_high);
    lemma_before_along_x(-up, b_low, b_high, a_low, a_high);
    lemma_before_along_y(along, a_low, a_high, b_low, b_high);
    lemma_before_along_y(along, b_low, b_high, a_low, a_high);
    lemma_before_along_y(-along, a_low, a_high, b_low, b_high);
    lemma_before_along_y(-along, b_low, b_high, a_low, a_high);
    let apart_x = a_high.0 <= b_low.0 || b_high.0 <= a_low.0;
    let apart_y = a_high.1 <= b_low.1 || b_high.1 <= a_low.1;
    assert(separates(edge_normal(e, 0), a, b) <==> apart_x);
    assert(separates(edge_normal(e, 1), a, b) <==> apart_y);
    assert(separates(edge_normal(e, 2), a, b) <==> apart_x);
    assert(separates(edge_normal(e, 3), a, b) <==> apart_y);
    if has_separating_edge(e, a, b) {
        let i = choose|i: int| 0 <= i < e.len() && #[trigger] separates(edge_normal(e, i), a, b);
        assert(i == 0 || i == 1 || i == 2 || i == 3);
    }
}

/// Two rectangles with sides along the axes intersect exactly if their
/// intervals overlap along `x` and along `y`, by more than an end point.
pub proof fn lemma_rectangles_intersect(a_low: Point, a_high: Point, b_low: Point, b_high: Point)
    requires
        a_low.0 < a_high.0 && a_low.1 < a_high.1,
        b_low.0 < b_high.0 && b_low.1 < b_high.1,
    ensures
        polygons_intersect(rectangle(a_low, a_high), rectangle(b_low, b_high)) <==> (a_low.0
            < b_high.0 && b_low.0 < a_high.0 && a_low.1 < b_high.1 && b_low.1 < a_high.1),
{
    lemma_rectangle_edges_separate(a_low, a_high, a_low, a_high, b_low, b_high);
    lemma_rectangle_edges_separate(b_low, b_high, a_low, a_high, b_low, b_high);
}

/// The sign of a product follows from the signs of its factors.
proof fn lemma_product_sign(a: int, b: int)
    by (nonlinear_arith)
    ensures
        a * b > 0 <==> (a > 0 && b > 0) || (a < 0 && b < 0),
        a * b == 0 <==> a == 0 || b == 0,
        a * b < 0 <==> (a > 0 && b < 0) || (a < 0 && b > 0),
{
}

/// An upright edge and the ray from a point that is at the height of neither
/// of its ends: they meet exactly if the point's height is between the ends
/// and the point is on the edge's line or to its left, and the point is on
/// the edge's line exactly if it has the edge's `x`.
proof fn lemma_ray_and_upright_edge(from: Point, to: Point, p: Point)
    requires
        from.0 == to.0,
        from.1 != to.1,
        p.1 != from.1,
        p.1 != to.1,
    ensures
        segments_intersect(from, to, p, ray_end(p)) <==> (p.0 <= from.0 && (from.1 < p.1 < to.1
            || to.1 < p.1 < from.1)),
        orientation(from, p, to) == Orientation::Collinear <==> p.0 == from.0,
        p.0 == from.0 ==> (point_in_closed_bounding_box(from, p, to) <==> (from.1 < p.1 < to.1
            || to.1 < p.1 < from.1)),
{
    let end = ray_end(p);
    let rise = to.1 - from.1;
    let far = i32::MAX - p.0;
    lemma_product_sign(rise, p.0 - to.0);
    lemma_product_sign(to.0 - from.0, p.1 - to.1);
    lemma_product_sign(rise, end.0 - to.0);
    lemma_product_sign(to.0 - from.0, end.1 - to.1);
    lemma_product_sign(end.1 - p.1, from.0 - end.0);
    lemma_product_sign(far, from.1 - end.1);
    lemma_product_sign(end.1 - p.1, to.0 - end.0);
    lemma_product_sign(far, to.1 - end.1);
    lemma_product_sign(p.1 - from.1, to.0 - p.0);
    lemma_product_sign(p.0 - from.0, to.1 - p.1);
    assert(cross(from, to, p) == rise * (p.0 - to.0));
    assert(cross(from, to, end) == rise * (end.0 - to.0));
    assert(cross(p, end, from) == -(far * (from.1 - end.1)));
    assert(cross(p, end, to) == -(far * (to.1 - end.1)));
    assert(cross(from, p, to) == (p.1 - from.1) * (to.0 - p.0) - (p.0 - from.0) * (to.1 - p.1));
    assert((p.1 - from.1) * (to.0 - p.0) - (p.0 - from.0) * (to.1 - p.1) == (from.0 - p.0) * rise)
        by (nonlinear_arith)
        requires
            from.0 == to.0,
            rise == to.1 - from.1,
    ;
    lemma_product_sign(from.0 - p.0, rise);
}

/// A level edge and the ray from a point at another height never meet.
proof fn lemma_ray_and_level_edge(from: Point, to: Point, p: Point)
    requires
        from.1 == to.1,
        from.0 != to.0,
        p.1 != from.1,
    ensures
        !segments_intersect(from, to, p, ray_end(p)),
{
    let end = ray_end(p);
    let run = to.0 - from.0;
    let far = i32::MAX - p.0;
    lemma_product_sign(to.1 - from.1, p.0 - to.0);
    lemma_product_sign(run, p.1 - to.1);
    lemma_product_sign(to.1 - from.1, end.0 - to.0);
    lemma_product_sign(run, end.1 - to.1);
    lemma_product_sign(end.1 - p.1, from.0 - end.0);
    lemma_product_sign(far, from.1 - end.1);
    lemma_product_sign(end.1 - p.1, to.0 - end.0);
    lemma_product_sign(far, to.1 - end.1);
    assert(cross(from, to, p) == -(run * (p.1 - to.1)));
    assert(cross(from, to, end) == -(run * (end.1 - to.1)));
    assert(cross(p, end, from) == -(far * (from.1 - end.1)));
    assert(cross(p, end, to) == -(far * (to.1 - end.1)));
}

/// A rectangle with sides along the axes contains the points strictly inside
/// it and no others, among the points that are not at the height of its
/// upper or its lower side.
pub proof fn lemma_point_in_rectangle(p: Point, low: Point, high: Point)
    requires
        low.0 < high.0,
        low.1 < high.1,
        p.1 != low.1,
        p.1 != high.1,
    ensures
        point_in_polygon(p, rectangle(low, high)) <==> (low.0 < p.0 < high.0 && low.1 < p.1
            < high.1),
{
    let r = rectangle(low, high);
    lemma_ray_and_upright_edge(r[0], r[1], p);
    lemma_ray_and_level_edge(r[1], r[2], p);
    lemma_ray_and_upright_edge(r[2], r[3], p);
    lemma_ray_and_level_edge(r[3], r[0], p);
    assert(next_index(0, 4) == 1 && next_index(1, 4) == 2 && next_index(2, 4) == 3 && next_index(
        3,
        4,
    ) == 0);
    let between = low.1 < p.1 < high.1;
    assert(edge_meets_ray(r, 0, p) <==> (between && p.0 <= low.0));
    assert(!edge_meets_ray(r, 1, p));
    assert(edge_meets_ray(r, 2, p) <==> (between && p.0 <= high.0));
    assert(!edge_meets_ray(r, 3, p));
    assert(edge_in_line_with(r, 0, p) <==> (between && p.0 == low.0));
    assert(!edge_in_line_with(r, 1, p));
    assert(edge_in_line_with(r, 2, p) <==> (between && p.0 == high.0));
    assert(!edge_in_line_with(r, 3, p));
    assert(crossings(r, p, 0) == 0);
    assert(crossings(r, p, 1) == if edge_meets_ray(r, 0, p) { 1int } else { 0int });
    assert(crossings(r, p, 2) == crossings(r, p, 1));
    assert(crossings(r, p, 3) == crossings(r, p, 2) + if edge_meets_ray(r, 2, p) { 1int } else { 0int });
    assert(crossings(r, p, 4) == crossings(r, p, 3));
    assert(level_vertices(r, p, 0) == 0);
    assert(level_vertices(r, p, 1) == 0);
    assert(level_vertices(r, p, 2) == 0);
    assert(level_vertices(r, p, 3) == 0);
    assert(level_vertices(r, p, 4) == 0);
    if between && p.0 == low.0 {
        assert(is_first_edge_in_line(r, 0, p));
        let i = choose|i: int| is_first_edge_in_line(r, i, p);
        assert(i == 0);
    } else if between && p.0 == high.0 {
        assert(is_first_edge_in_line(r, 2, p));
        let i = choose|i: int| is_first_edge_in_line(r, i, p);
        assert(i == 2);
    } else {
        assert forall|i: int| !is_first_edge_in_line(r, i, p) by {
            if 0 <= i < 4 {
                assert(i == 0 || i == 1 || i == 2 || i == 3);
            }
        }
    }
}

} // verus!
