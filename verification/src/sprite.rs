use vstd::prelude::*;
use crate::fixed::{
    add_saturating, div_saturating, mul_saturating, saturating_difference, saturating_product,
    saturating_quotient, saturating_sum, sub_saturating, Point, Scalar, UNIT,
};
use crate::hitbox::{
    copy_points, greatest_x, greatest_x_of, greatest_y, greatest_y_of, least_x, least_x_of,
    least_y, least_y_of, lemma_extremes_are_unique, HitBox, HitBoxView, RotatableHitBox,
    RotatableHitBoxView,
};
use crate::rotation::Rotation;

verus! {

/// What an attached hit box is, apart from what it remembers.
pub enum AttachedHitBoxView {
    /// A hit box that cannot be rotated.
    Plain(HitBoxView),
    /// A hit box that can be rotated.
    Rotatable(RotatableHitBoxView),
}

impl AttachedHitBoxView {
    /// The polygon in the sprite's own frame.
    pub open spec fn points(self) -> Seq<Point> {
        match self {
            AttachedHitBoxView::Plain(h) => h.points,
            AttachedHitBoxView::Rotatable(h) => h.points,
        }
    }

    /// Where the hit box stands.
    pub open spec fn position(self) -> Point {
        match self {
            AttachedHitBoxView::Plain(h) => h.position,
            AttachedHitBoxView::Rotatable(h) => h.position,
        }
    }

    /// The scale along each axis.
    pub open spec fn scale(self) -> Point {
        match self {
            AttachedHitBoxView::Plain(h) => h.scale,
            AttachedHitBoxView::Rotatable(h) => h.scale,
        }
    }

    /// How far the polygon is turned: not at all where it cannot be.
    pub open spec fn angle(self) -> Rotation {
        match self {
            AttachedHitBoxView::Plain(_) => Rotation::none(),
            AttachedHitBoxView::Rotatable(h) => h.angle,
        }
    }

    /// The polygon in the world.
    pub open spec fn adjusted(self) -> Seq<Point> {
        match self {
            AttachedHitBoxView::Plain(h) => h.adjusted(),
            AttachedHitBoxView::Rotatable(h) => h.adjusted(),
        }
    }

    /// The same hit box at another position.
    pub open spec fn moved_to(self, position: Point) -> AttachedHitBoxView {
        match self {
            AttachedHitBoxView::Plain(h) => AttachedHitBoxView::Plain(
                HitBoxView { position, ..h },
            ),
            AttachedHitBoxView::Rotatable(h) => AttachedHitBoxView::Rotatable(
                RotatableHitBoxView { position, ..h },
            ),
        }
    }

    /// A hit box of the same polygon, position and scale that can be rotated
    /// and is turned by `angle`.
    pub open spec fn turned_to(self, angle: Rotation) -> AttachedHitBoxView {
        AttachedHitBoxView::Rotatable(
            RotatableHitBoxView {
                points: self.points(),
                position: self.position(),
                scale: self.scale(),
                angle,
            },
        )
    }

    /// The same hit box with another scale.
    pub open spec fn scaled_to(self, scale: Point) -> AttachedHitBoxView {
        match self {
            AttachedHitBoxView::Plain(h) => AttachedHitBoxView::Plain(HitBoxView { scale, ..h }),
            AttachedHitBoxView::Rotatable(h) => AttachedHitBoxView::Rotatable(
                RotatableHitBoxView { scale, ..h },
            ),
        }
    }
}

/// The hit box that a sprite carries: one of the two kinds, chosen when the
/// sprite is made.
pub enum AttachedHitBox {
    /// A hit box that cannot be rotated.
    Plain(HitBox),
    /// A hit box that can be rotated.
    Rotatable(RotatableHitBox),
}

impl View for AttachedHitBox {
    type V = AttachedHitBoxView;

    open spec fn view(&self) -> AttachedHitBoxView {
        match self {
            AttachedHitBox::Plain(h) => AttachedHitBoxView::Plain(h@),
            AttachedHitBox::Rotatable(h) => AttachedHitBoxView::Rotatable(h@),
        }
    }
}

impl Clone for AttachedHitBox {
    /// A hit box of its own, of the same kind and with the same contents.
    fn clone(&self) -> (copy: AttachedHitBox)
        ensures
            copy@ == self@,
    {
        match self {
            AttachedHitBox::Plain(h) => AttachedHitBox::Plain(h.clone()),
            AttachedHitBox::Rotatable(h) => AttachedHitBox::Rotatable(h.clone()),
        }
    }
}

impl AttachedHitBox {
    /// Whether the hit box remembers its polygon in the world.
    pub open spec fn cache_valid(&self) -> bool {
        match self {
            AttachedHitBox::Plain(h) => h.cache_valid(),
            AttachedHitBox::Rotatable(h) => h.cache_valid(),
        }
    }

    /// The polygon in the sprite's own frame.
    pub fn points(&self) -> (points: &Vec<Point>)
        ensures
            points@ == self@.points(),
    {
        match self {
            AttachedHitBox::Plain(h) => h.points(),
            AttachedHitBox::Rotatable(h) => h.points(),
        }
    }

    /// Where the hit box stands.
    pub fn position(&self) -> (position: Point)
        ensures
            position == self@.position(),
    {
        match self {
            AttachedHitBox::Plain(h) => h.position(),
            AttachedHitBox::Rotatable(h) => h.position(),
        }
    }

    /// The scale along each axis.
    pub fn scale(&self) -> (scale: Point)
        ensures
            scale == self@.scale(),
    {
        match self {
            AttachedHitBox::Plain(h) => h.scale(),
            AttachedHitBox::Rotatable(h) => h.scale(),
        }
    }

    /// How far the polygon is turned.
    pub fn angle(&self) -> (angle: Rotation)
        ensures
            angle == self@.angle(),
    {
        match self {
            AttachedHitBox::Plain(_) => Rotation::identity(),
            AttachedHitBox::Rotatable(h) => h.angle(),
        }
    }

    /// The polygon in the world, read without changing the hit box.
    pub fn snapshot(&self) -> (adjusted: Vec<Point>)
        ensures
            adjusted@ == self@.adjusted(),
    {
        match self {
            AttachedHitBox::Plain(h) => h.snapshot(),
            AttachedHitBox::Rotatable(h) => h.snapshot(),
        }
    }

    /// Moves the hit box, whichever kind it is.
    pub fn set_position(&mut self, value: Point)
        ensures
            final(self)@ == old(self)@.moved_to(value),
            !final(self).cache_valid(),
    {
        match self {
            AttachedHitBox::Plain(h) => h.set_position(value),
            AttachedHitBox::Rotatable(h) => h.set_position(value),
        }
    }

    /// Rescales the hit box, whichever kind it is.
    pub fn set_scale(&mut self, value: Point)
        ensures
            final(self)@ == old(self)@.scaled_to(value),
            !final(self).cache_valid(),
    {
        match self {
            AttachedHitBox::Plain(h) => h.set_scale(value),
            AttachedHitBox::Rotatable(h) => h.set_scale(value),
        }
    }
}

/// What a texture tells a sprite: its size, and the polygon that stands for
/// its shape.
pub struct Texture {
    /// The width of the image.
    pub width: Scalar,
    /// The height of the image.
    pub height: Scalar,
    /// The polygon around the image, in the image's own frame.
    pub hit_box_points: Vec<Point>,
}

/// A texture as a value.
pub struct TextureView {
    /// The width of the image.
    pub width: Scalar,
    /// The height of the image.
    pub height: Scalar,
    /// The polygon around the image.
    pub hit_box_points: Seq<Point>,
}

impl View for Texture {
    type V = TextureView;

    open spec fn view(&self) -> TextureView {
        TextureView {
            width: self.width,
            height: self.height,
            hit_box_points: self.hit_box_points@,
        }
    }
}

impl Clone for Texture {
    /// A texture of its own with the same size and polygon.
    fn clone(&self) -> (copy: Texture)
        ensures
            copy@ == self@,
    {
        Texture {
            width: self.width,
            height: self.height,
            hit_box_points: copy_points(&self.hit_box_points),
        }
    }
}

/// A colour: red, green, blue and alpha.
pub type Color = (u8, u8, u8, u8);

/// What the lists that hold a sprite are to be told after a change.
#[derive(Clone, Copy, Debug, PartialEq, Eq, Structural)]
pub enum Notice {
    /// The sprite has moved.
    Position,
    /// The scale has changed, and with it the size.
    Size,
    /// The depth has changed.
    Depth,
    /// The sprite shows another texture.
    Texture,
    /// The colour or the alpha has changed.
    Color,
    /// The width has been set.
    Width,
    /// The height has been set.
    Height,
    /// The sprite has been turned.
    Angle,
}

/// A sprite as a value.
pub struct BasicSpriteView {
    /// The texture that the sprite shows.
    pub texture: TextureView,
    /// The depth at which it is drawn.
    pub depth: Scalar,
    /// Its width in the world.
    pub width: Scalar,
    /// Its height in the world.
    pub height: Scalar,
    /// Its colour.
    pub color: Color,
    /// Its hit box, which holds its position, scale and angle.
    pub hitbox: AttachedHitBoxView,
}

impl BasicSpriteView {
    /// Where the sprite's centre is.
    pub open spec fn position(self) -> Point {
        self.hitbox.position()
    }

    /// The scale along each axis.
    pub open spec fn scale(self) -> Point {
        self.hitbox.scale()
    }

    /// The sprite's hit box polygon in the world.
    pub open spec fn world_polygon(self) -> Seq<Point> {
        self.hitbox.adjusted()
    }
}

/// A sprite: a texture shown at a position, with a scale, a colour and a hit
/// box. Position and scale are those of the hit box, so the two can never
/// disagree, and every change of them makes the hit box forget its polygon
/// in the world before the change is reported.
pub struct BasicSprite {
    texture: Texture,
    depth: Scalar,
    width: Scalar,
    height: Scalar,
    color: Color,
    hitbox: AttachedHitBox,
}

impl View for BasicSprite {
    type V = BasicSpriteView;

    closed spec fn view(&self) -> BasicSpriteView {
        BasicSpriteView {
            texture: self.texture@,
            depth: self.depth,
            width: self.width,
            height: self.height,
            color: self.color,
            hitbox: self.hitbox@,
        }
    }
}

impl Clone for BasicSprite {
    /// A sprite of its own with the same contents.
    fn clone(&self) -> (copy: BasicSprite)
        ensures
            copy@ == self@,
    {
        BasicSprite {
            texture: self.texture.clone(),
            depth: self.depth,
            width: self.width,
            height: self.height,
            color: self.color,
            hitbox: self.hitbox.clone(),
        }
    }
}

/// The colour that `channels` asks for: four channels give all of it, three
/// leave the alpha as it is.
pub open spec fn color_from_channels(channels: Seq<u8>, current: Color) -> Color {
    if channels.len() == 4 {
        (channels[0], channels[1], channels[2], channels[3])
    } else {
        (channels[0], channels[1], channels[2], current.3)
    }
}

impl BasicSprite {
    /// Whether the sprite's hit box remembers its polygon in the world.
    pub closed spec fn hit_box_cache_valid(&self) -> bool {
        self.hitbox.cache_valid()
    }

    /// A sprite that shows `texture`, with the texture's polygon as a hit box
    /// that cannot be rotated. Without a scale it has scale one; without a
    /// centre it stands at the origin. It is white and opaque.
    pub fn new(
        texture: Texture,
        scale: Option<Scalar>,
        center_x: Option<Scalar>,
        center_y: Option<Scalar>,
    ) -> (sprite: BasicSprite)
        ensures
            sprite@.texture == texture@,
            sprite@.depth == 0,
            sprite@.color == (255u8, 255u8, 255u8, 255u8),
            sprite@.hitbox == AttachedHitBoxView::Plain(
                HitBoxView {
                    points: texture@.hit_box_points,
                    position: (
                        match center_x {
                            Some(x) => x,
                            None => 0i32,
                        },
                        match center_y {
                            Some(y) => y,
                            None => 0i32,
                        },
                    ),
                    scale: match scale {
                        Some(s) => (s, s),
                        None => (UNIT, UNIT),
                    },
                },
            ),
            sprite@.width == saturating_product(texture.width, sprite@.scale().0),
            sprite@.height == saturating_product(texture.height, sprite@.scale().1),
    {
        let factor: Scalar = match scale {
            Some(s) => s,
            None => UNIT,
        };
        let final_scale: Point = (factor, factor);
        let final_position: Point = (
            match center_x {
                Some(x) => x,
                None => 0,
            },
            match center_y {
                Some(y) => y,
                None => 0,
            },
        );
        let points = copy_points(&texture.hit_box_points);
        let width = mul_saturating(texture.width, final_scale.0);
        let height = mul_saturating(texture.height, final_scale.1);
        BasicSprite {
            texture,
            depth: 0,
            width,
            height,
            color: (255, 255, 255, 255),
            hitbox: AttachedHitBox::Plain(
                HitBox::new(points, Some(final_position), Some(final_scale)),
            ),
        }
    }

    /// Where the sprite's centre is.
    pub fn get_position(&self) -> (position: Point)
        ensures
            position == self@.position(),
    {
        self.hitbox.position()
    }

    /// Moves the sprite. Nothing is to be told if it was there already.
    pub fn set_position(&mut self, new_value: Point) -> (notice: Option<Notice>)
        ensures
            final(self)@ == (BasicSpriteView {
                hitbox: old(self)@.hitbox.moved_to(new_value),
                ..old(self)@
            }),
            notice == if new_value == old(self)@.position() {
                None
            } else {
                Some(Notice::Position)
            },
            notice.is_some() ==> !final(self).hit_box_cache_valid(),
    {
        let position = self.hitbox.position();
        if new_value.0 == position.0 && new_value.1 == position.1 {
            return None;
        }
        self.hitbox.set_position(new_value);
        Some(Notice::Position)
    }

    /// The scale along `x`.
    pub fn get_scale(&self) -> (scale: Scalar)
        ensures
            scale == self@.scale().0,
    {
        self.hitbox.scale().0
    }

    /// Gives both axes the same scale.
    pub fn set_scale(&mut self, new_value: Scalar) -> (notice: Option<Notice>)
        ensures
            final(self)@ == old(self)@.rescaled((new_value, new_value)),
            notice == if (new_value, new_value) == old(self)@.scale() {
                None
            } else {
                Some(Notice::Size)
            },
            notice.is_some() ==> !final(self).hit_box_cache_valid(),
    {
        self.set_scalexy((new_value, new_value))
    }

    /// The scale along each axis.
    pub fn get_scalexy(&self) -> (scale: Point)
        ensures
            scale == self@.scale(),
    {
        self.hitbox.scale()
    }

    /// Rescales the sprite: the hit box takes the scale, and width and height
    /// follow from the texture's size. Nothing happens if the scale is the
    /// same.
    pub fn set_scalexy(&mut self, new_value: Point) -> (notice: Option<Notice>)
        ensures
            final(self)@ == old(self)@.rescaled(new_value),
            notice == if new_value == old(self)@.scale() {
                None
            } else {
                Some(Notice::Size)
            },
            notice.is_some() ==> !final(self).hit_box_cache_valid(),
    {
        let scale = self.hitbox.scale();
        if new_value.0 == scale.0 && new_value.1 == scale.1 {
            return None;
        }
        self.hitbox.set_scale(new_value);
        self.width = mul_saturating(self.texture.width, new_value.0);
        self.height = mul_saturating(self.texture.height, new_value.1);
        Some(Notice::Size)
    }

    /// The depth at which the sprite is drawn.
    pub fn get_depth(&self) -> (depth: Scalar)
        ensures
            depth == self@.depth,
    {
        self.depth
    }

    /// Puts the sprite at another depth.
    pub fn set_depth(&mut self, new_value: Scalar) -> (notice: Option<Notice>)
        ensures
            final(self)@ == (BasicSpriteView { depth: new_value, ..old(self)@ }),
            notice == if new_value == old(self)@.depth {
                None
            } else {
                Some(Notice::Depth)
            },
    {
        if new_value == self.depth {
            return None;
        }
        self.depth = new_value;
        Some(Notice::Depth)
    }

    /// The texture that the sprite shows.
    pub fn get_texture(&self) -> (texture: &Texture)
        ensures
            texture@ == self@.texture,
    {
        &self.texture
    }

    /// Shows another texture: width and height follow from its size and the
    /// scale. The hit box keeps its polygon.
    pub fn set_texture(&mut self, new_value: Texture) -> (notice: Option<Notice>)
        ensures
            final(self)@ == (BasicSpriteView {
                texture: new_value@,
                width: saturating_product(new_value.width, old(self)@.scale().0),
                height: saturating_product(new_value.height, old(self)@.scale().1),
                ..old(self)@
            }),
            notice == Some(Notice::Texture),
    {
        let scale = self.hitbox.scale();
        self.width = mul_saturating(new_value.width, scale.0);
        self.height = mul_saturating(new_value.height, scale.1);
        self.texture = new_value;
        Some(Notice::Texture)
    }

    /// The sprite's colour.
    pub fn get_color(&self) -> (color: Color)
        ensures
            color == self@.color,
    {
        self.color
    }

    /// Colours the sprite from three or four channels; three leave the alpha
    /// as it is.
    pub fn set_color(&mut self, new_value: Vec<u8>) -> (notice: Option<Notice>)
        requires
            new_value.len() == 3 || new_value.len() == 4,
        ensures
            final(self)@ == (BasicSpriteView {
                color: color_from_channels(new_value@, old(self)@.color),
                ..old(self)@
            }),
            notice == if color_from_channels(new_value@, old(self)@.color) == old(self)@.color {
                None
            } else {
                Some(Notice::Color)
            },
    {
        let new_color: Color = if new_value.len() == 4 {
            (new_value[0], new_value[1], new_value[2], new_value[3])
        } else {
            (new_value[0], new_value[1], new_value[2], self.color.3)
        };
        if new_color.0 == self.color.0 && new_color.1 == self.color.1 && new_color.2
            == self.color.2 && new_color.3 == self.color.3 {
            return None;
        }
        self.color = new_color;
        Some(Notice::Color)
    }

    /// How opaque the sprite is.
    pub fn get_alpha(&self) -> (alpha: u8)
        ensures
            alpha == self@.color.3,
    {
        self.color.3
    }

    /// Makes the sprite more or less opaque.
    pub fn set_alpha(&mut self, new_value: u8) -> (notice: Option<Notice>)
        ensures
            final(self)@ == (BasicSpriteView {
                color: (
                    old(self)@.color.0,
                    old(self)@.color.1,
                    old(self)@.color.2,
                    new_value,
                ),
                ..old(self)@
            }),
            notice == if new_value == old(self)@.color.3 {
                None
            } else {
                Some(Notice::Color)
            },
    {
        if self.color.3 == new_value {
            return None;
        }
        self.color = (self.color.0, self.color.1, self.color.2, new_value);
        Some(Notice::Color)
    }

    /// Whether anything of the sprite can be seen: its alpha is not zero.
    pub fn get_visible(&self) -> (visible: bool)
        ensures
            visible == (self@.color.3 > 0),
    {
        self.color.3 > 0
    }

    /// Shows the sprite fully or hides it. The lists are told in any case.
    pub fn set_visible(&mut self, new_value: bool) -> (notice: Option<Notice>)
        ensures
            final(self)@ == (BasicSpriteView {
                color: (
                    old(self)@.color.0,
                    old(self)@.color.1,
                    old(self)@.color.2,
                    if new_value {
                        255u8
                    } else {
                        0u8
                    },
                ),
                ..old(self)@
            }),
            notice == Some(Notice::Color),
    {
        let alpha: u8 = if new_value { 255 } else { 0 };
        self.color = (self.color.0, self.color.1, self.color.2, alpha);
        Some(Notice::Color)
    }

    /// The sprite's width in the world.
    pub fn get_width(&self) -> (width: Scalar)
        ensures
            width == self@.width,
    {
        self.width
    }

    /// Gives the sprite a width: the scale along `x` becomes the width over
    /// the texture's width.
    pub fn set_width(&mut self, new_value: Scalar) -> (notice: Option<Notice>)
        ensures
            new_value == old(self)@.width ==> final(self)@ == old(self)@ && notice.is_none(),
            new_value != old(self)@.width ==> notice == Some(Notice::Width) && final(self)@ == (
            BasicSpriteView {
                width: new_value,
                hitbox: old(self)@.hitbox.scaled_to(
                    (
                        saturating_quotient(new_value, old(self)@.texture.width),
                        old(self)@.scale().1,
                    ),
                ),
                ..old(self)@
            }),
            notice.is_some() ==> !final(self).hit_box_cache_valid(),
    {
        if self.width == new_value {
            return None;
        }
        let scale = self.hitbox.scale();
        self.hitbox.set_scale((div_saturating(new_value, self.texture.width), scale.1));
        self.width = new_value;
        Some(Notice::Width)
    }

    /// The sprite's height in the world.
    pub fn get_height(&self) -> (height: Scalar)
        ensures
            height == self@.height,
    {
        self.height
    }

    /// Gives the sprite a height: the scale along `y` becomes the height over
    /// the texture's height.
    pub fn set_height(&mut self, new_value: Scalar) -> (notice: Option<Notice>)
        ensures
            new_value == old(self)@.height ==> final(self)@ == old(self)@ && notice.is_none(),
            new_value != old(self)@.height ==> notice == Some(Notice::Height) && final(self)@ == (
            BasicSpriteView {
                height: new_value,
                hitbox: old(self)@.hitbox.scaled_to(
                    (
                        old(self)@.scale().0,
                        saturating_quotient(new_value, old(self)@.texture.height),
                    ),
                ),
                ..old(self)@
            }),
            notice.is_some() ==> !final(self).hit_box_cache_valid(),
    {
        if self.height == new_value {
            return None;
        }
        let scale = self.hitbox.scale();
        self.hitbox.set_scale((scale.0, div_saturating(new_value, self.texture.height)));
        self.height = new_value;
        Some(Notice::Height)
    }

    /// The `x` of the sprite's centre.
    pub fn get_center_x(&self) -> (x: Scalar)
        ensures
            x == self@.position().0,
    {
        self.hitbox.position().0
    }

    /// Moves the sprite along `x`.
    pub fn set_center_x(&mut self, new_value: Scalar) -> (notice: Option<Notice>)
        ensures
            final(self)@ == (BasicSpriteView {
                hitbox: old(self)@.hitbox.moved_to((new_value, old(self)@.position().1)),
                ..old(self)@
            }),
            notice == if new_value == old(self)@.position().0 {
                None
            } else {
                Some(Notice::Position)
            },
            notice.is_some() ==> !final(self).hit_box_cache_valid(),
    {
        let y: Scalar = self.hitbox.position().1;
        self.set_position((new_value, y))
    }

    /// The `y` of the sprite's centre.
    pub fn get_center_y(&self) -> (y: Scalar)
        ensures
            y == self@.position().1,
    {
        self.hitbox.position().1
    }

    /// Moves the sprite along `y`.
    pub fn set_center_y(&mut self, new_value: Scalar) -> (notice: Option<Notice>)
        ensures
            final(self)@ == (BasicSpriteView {
                hitbox: old(self)@.hitbox.moved_to((old(self)@.position().0, new_value)),
                ..old(self)@
            }),
            notice == if new_value == old(self)@.position().1 {
                None
            } else {
                Some(Notice::Position)
            },
            notice.is_some() ==> !final(self).hit_box_cache_valid(),
    {
        let x: Scalar = self.hitbox.position().0;
        self.set_position((x, new_value))
    }

    /// The least `x` that the hit box reaches in the world.
    pub fn get_left(&self) -> (edge: Scalar)
        requires
            self@.hitbox.points().len() > 0,
        ensures
            edge == least_x_of(self@.world_polygon()),
    {
        let polygon = self.hitbox.snapshot();
        let edge = least_x(&polygon);
        proof {
            lemma_extremes_are_unique(polygon@, edge);
        }
        edge
    }

    /// Moves the sprite along `x` so that its left edge comes to `new_value`.
    pub fn set_left(&mut self, new_value: Scalar) -> (notice: Option<Notice>)
        requires
            old(self)@.hitbox.points().len() > 0,
        ensures
            final(self)@ == (BasicSpriteView {
                hitbox: old(self)@.hitbox.moved_to(
                    (old(self)@.x_with_left_at(new_value), old(self)@.position().1),
                ),
                ..old(self)@
            }),
            notice == if old(self)@.x_with_left_at(new_value) == old(self)@.position().0 {
                None
            } else {
                Some(Notice::Position)
            },
            notice.is_some() ==> !final(self).hit_box_cache_valid(),
    {
        let leftmost = self.get_left();
        let diff = sub_saturating(new_value, leftmost);
        let x: Scalar = self.hitbox.position().0;
        self.set_center_x(add_saturating(x, diff))
    }

    /// The greatest `x` that the hit box reaches in the world.
    pub fn get_right(&self) -> (edge: Scalar)
        requires
            self@.hitbox.points().len() > 0,
        ensures
            edge == greatest_x_of(self@.world_polygon()),
    {
        let polygon = self.hitbox.snapshot();
        let edge = greatest_x(&polygon);
        proof {
            lemma_extremes_are_unique(polygon@, edge);
        }
        edge
    }

    /// Moves the sprite along `x` so that its right edge comes to
    /// `new_value`.
    pub fn set_right(&mut self, new_value: Scalar) -> (notice: Option<Notice>)
        requires
            old(self)@.hitbox.points().len() > 0,
        ensures
            final(self)@ == (BasicSpriteView {
                hitbox: old(self)@.hitbox.moved_to(
                    (old(self)@.x_with_right_at(new_value), old(self)@.position().1),
                ),
                ..old(self)@
            }),
            notice == if old(self)@.x_with_right_at(new_value) == old(self)@.position().0 {
                None
            } else {
                Some(Notice::Position)
            },
            notice.is_some() ==> !final(self).hit_box_cache_valid(),
    {
        let rightmost = self.get_right();
        let diff = sub_saturating(rightmost, new_value);
        let x: Scalar = self.hitbox.position().0;
        self.set_center_x(sub_saturating(x, diff))
    }

    /// The least `y` that the hit box reaches in the world.
    pub fn get_bottom(&self) -> (edge: Scalar)
        requires
            self@.hitbox.points().len() > 0,
        ensures
            edge == least_y_of(self@.world_polygon()),
    {
        let polygon = self.hitbox.snapshot();
        let edge = least_y(&polygon);
        proof {
            lemma_extremes_are_unique(polygon@, edge);
        }
        edge
    }

    /// Moves the sprite along `y` so that its bottom edge comes to
    /// `new_value`.
    pub fn set_bottom(&mut self, new_value: Scalar) -> (notice: Option<Notice>)
        requires
            old(self)@.hitbox.points().len() > 0,
        ensures
            final(self)@ == (BasicSpriteView {
                hitbox: old(self)@.hitbox.moved_to(
                    (old(self)@.position().0, old(self)@.y_with_bottom_at(new_value)),
                ),
                ..old(self)@
            }),
            notice == if old(self)@.y_with_bottom_at(new_value) == old(self)@.position().1 {
                None
            } else {
                Some(Notice::Position)
            },
            notice.is_some() ==> !final(self).hit_box_cache_valid(),
    {
        let lowest = self.get_bottom();
        let diff = sub_saturating(lowest, new_value);
        let y: Scalar = self.hitbox.position().1;
        self.set_center_y(sub_saturating(y, diff))
    }

    /// The greatest `y` that the hit box reaches in the world.
    pub fn get_top(&self) -> (edge: Scalar)
        requires
            self@.hitbox.points().len() > 0,
        ensures
            edge == greatest_y_of(self@.world_polygon()),
    {
        let polygon = self.hitbox.snapshot();
        let edge = greatest_y(&polygon);
        proof {
            lemma_extremes_are_unique(polygon@, edge);
        }
        edge
    }

    /// Moves the sprite along `y` so that its top edge comes to `new_value`.
    pub fn set_top(&mut self, new_value: Scalar) -> (notice: Option<Notice>)
        requires
            old(self)@.hitbox.points().len() > 0,
        ensures
            final(self)@ == (BasicSpriteView {
                hitbox: old(self)@.hitbox.moved_to(
                    (old(self)@.position().0, old(self)@.y_with_top_at(new_value)),
                ),
                ..old(self)@
            }),
            notice == if old(self)@.y_with_top_at(new_value) == old(self)@.position().1 {
                None
            } else {
                Some(Notice::Position)
            },
            notice.is_some() ==> !final(self).hit_box_cache_valid(),
    {
        let highest = self.get_top();
        let diff = sub_saturating(highest, new_value);
        let y: Scalar = self.hitbox.position().1;
        self.set_center_y(sub_saturating(y, diff))
    }

    /// How far the sprite is turned.
    pub fn get_angle(&self) -> (angle: Rotation)
        ensures
            angle == self@.hitbox.angle(),
    {
        self.hitbox.angle()
    }

    /// Turns the sprite, and its hit box with it: a hit box that could not
    /// be rotated gives way to one that can, of the same polygon, position
    /// and scale. Nothing happens if the sprite is turned that far already.
    pub fn set_angle(&mut self, new_value: Rotation) -> (notice: Option<Notice>)
        ensures
            new_value == old(self)@.hitbox.angle() ==> final(self)@ == old(self)@
                && notice.is_none(),
            new_value != old(self)@.hitbox.angle() ==> notice == Some(Notice::Angle),
            new_value != old(self)@.hitbox.angle() ==> final(self)@ == (BasicSpriteView {
                hitbox: old(self)@.hitbox.turned_to(new_value),
                ..old(self)@
            }),
            notice.is_some() ==> !final(self).hit_box_cache_valid(),
    {
        if self.hitbox.angle() == new_value {
            return None;
        }
        let replacement: Option<RotatableHitBox> = match &mut self.hitbox {
            AttachedHitBox::Rotatable(h) => {
                h.set_angle(new_value);
                None
            },
            AttachedHitBox::Plain(h) => Some(h.create_rotatable(Some(new_value))),
        };
        match replacement {
            Some(rotatable) => {
                self.hitbox = AttachedHitBox::Rotatable(rotatable);
            },
            None => {},
        }
        Some(Notice::Angle)
    }

    /// The hit box that the sprite carries.
    pub fn hit_box(&self) -> (hitbox: &AttachedHitBox)
        ensures
            hitbox@ == self@.hitbox,
    {
        &self.hitbox
    }
}

impl BasicSpriteView {
    /// The `x` of the centre that brings the left edge to `edge`.
    pub open spec fn x_with_left_at(self, edge: Scalar) -> Scalar {
        saturating_sum(
            self.position().0,
            saturating_difference(edge, least_x_of(self.world_polygon())),
        )
    }

    /// The `x` of the centre that brings the right edge to `edge`.
    pub open spec fn x_with_right_at(self, edge: Scalar) -> Scalar {
        saturating_difference(
            self.position().0,
            saturating_difference(greatest_x_of(self.world_polygon()), edge),
        )
    }

    /// The `y` of the centre that brings the bottom edge to `edge`.
    pub open spec fn y_with_bottom_at(self, edge: Scalar) -> Scalar {
        saturating_difference(
            self.position().1,
            saturating_difference(least_y_of(self.world_polygon()), edge),
        )
    }

    /// The `y` of the centre that brings the top edge to `edge`.
    pub open spec fn y_with_top_at(self, edge: Scalar) -> Scalar {
        saturating_difference(
            self.position().1,
            saturating_difference(greatest_y_of(self.world_polygon()), edge),
        )
    }

    /// The sprite with another scale: the hit box takes it, and width and
    /// height follow from the texture's size. The same scale changes nothing.
    pub open spec fn rescaled(self, scale: Point) -> BasicSpriteView {
        if scale == self.scale() {
            self
        } else {
            BasicSpriteView {
                hitbox: self.hitbox.scaled_to(scale),
                width: saturating_product(self.texture.width, scale.0),
                height: saturating_product(self.texture.height, scale.1),
                ..self
            }
        }
    }
}

/// A sprite that can be rotated: a [`BasicSprite`] whose hit box turns with
/// it.
pub struct Sprite {
    basic: BasicSprite,
}

impl View for Sprite {
    type V = BasicSpriteView;

    closed spec fn view(&self) -> BasicSpriteView {
        self.basic@
    }
}

impl Clone for Sprite {
    /// A sprite of its own with the same contents.
    fn clone(&self) -> (copy: Sprite)
        ensures
            copy@ == self@,
    {
        Sprite { basic: self.basic.clone() }
    }
}

impl Sprite {
    /// Whether the sprite's hit box remembers its polygon in the world.
    pub closed spec fn hit_box_cache_valid(&self) -> bool {
        self.basic.hit_box_cache_valid()
    }

    /// A sprite that shows `texture`, with the texture's polygon as a hit box
    /// that can be rotated. Without an angle it is not turned; the rest is as
    /// for a [`BasicSprite`].
    pub fn new(
        texture: Texture,
        scale: Option<Scalar>,
        center_x: Option<Scalar>,
        center_y: Option<Scalar>,
        angle: Option<Rotation>,
    ) -> (sprite: Sprite)
        ensures
            sprite@.texture == texture@,
            sprite@.depth == 0,
            sprite@.color == (255u8, 255u8, 255u8, 255u8),
            sprite@.hitbox == AttachedHitBoxView::Rotatable(
                RotatableHitBoxView {
                    points: texture@.hit_box_points,
                    position: (
                        match center_x {
                            Some(x) => x,
                            None => 0i32,
                        },
                        match center_y {
                            Some(y) => y,
                            None => 0i32,
                        },
                    ),
                    scale: match scale {
                        Some(s) => (s, s),
                        None => (UNIT, UNIT),
                    },
                    angle: match angle {
                        Some(a) => a,
                        None => Rotation::none(),
                    },
                },
            ),
            sprite@.width == saturating_product(texture.width, sprite@.scale().0),
            sprite@.height == saturating_product(texture.height, sprite@.scale().1),
    {
        let mut basic = BasicSprite::new(texture, scale, center_x, center_y);
        let rotatable = match &basic.hitbox {
            AttachedHitBox::Plain(h) => h.create_rotatable(angle),
            AttachedHitBox::Rotatable(h) => h.create_rotatable(angle),
        };
        basic.hitbox = AttachedHitBox::Rotatable(rotatable);
        Sprite { basic }
    }

    /// How far the sprite is turned.
    pub fn get_angle(&self) -> (angle: Rotation)
        ensures
            angle == self@.hitbox.angle(),
    {
        self.basic.get_angle()
    }

    /// Turns the sprite, and its hit box with it. Nothing happens if it is
    /// turned that far already.
    pub fn set_angle(&mut self, new_value: Rotation) -> (notice: Option<Notice>)
        ensures
            new_value == old(self)@.hitbox.angle() ==> final(self)@ == old(self)@
                && notice.is_none(),
            new_value != old(self)@.hitbox.angle() ==> notice == Some(Notice::Angle),
            new_value != old(self)@.hitbox.angle() ==> final(self)@ == (BasicSpriteView {
                hitbox: old(self)@.hitbox.turned_to(new_value),
                ..old(self)@
            }),
            notice.is_some() ==> !final(self).hit_box_cache_valid(),
    {
        self.basic.set_angle(new_value)
    }

    /// The sprite as a [`BasicSprite`], to read.
    pub fn basic(&self) -> (basic: &BasicSprite)
        ensures
            basic@ == self@,
    {
        &self.basic
    }

    /// The sprite, given up for the [`BasicSprite`] that it is.
    pub fn into_basic(self) -> (basic: BasicSprite)
        ensures
            basic@ == self@,
    {
        self.basic
    }

    /// The sprite as a [`BasicSprite`], to change what a `BasicSprite` lets
    /// one change.
    pub fn basic_mut(&mut self) -> (basic: &mut BasicSprite)
        ensures
            basic@ == old(self)@,
            final(self)@ == final(basic)@,
    {
        &mut self.basic
    }
}

} // verus!
