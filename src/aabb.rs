use vstd::prelude::*;

verus! {

/// Number of length units in one pixel.
pub const UNITS_PER_PIXEL: i64 = 16777216;

/// Whether an integer fits in an `i64`.
pub open spec fn fits_i64(v: int) -> bool {
    i64::MIN <= v <= i64::MAX
}

/// Half of `v`, rounded toward zero (the rounding of Rust's `/`); exact when
/// `v` is even, which is the only case the rectangle operations use.
pub open spec fn half(v: int) -> int {
    if v >= 0 {
        v / 2
    } else {
        -((-v) / 2)
    }
}

/// A two-dimensional integer vector.
#[derive(Debug, Clone, Copy, PartialEq, Eq, Structural)]
pub struct Vec2 {
    pub x: i64,
    pub y: i64,
}

impl Vec2 {
    pub fn new(x: i64, y: i64) -> (r: Vec2)
        ensures
            r.x == x,
            r.y == y,
    {
        Vec2 { x, y }
    }
}

/// The mathematical model of a rectangle: its left and top edges and its
/// extent on each axis, as unbounded integers.
pub struct Rect {
    pub left: int,
    pub top: int,
    pub width: int,
    pub height: int,
}

impl Rect {
    pub open spec fn right(self) -> int {
        self.left + self.width
    }

    pub open spec fn bottom(self) -> int {
        self.top + self.height
    }

    pub open spec fn centre_x(self) -> int {
        self.left + half(self.width)
    }

    pub open spec fn centre_y(self) -> int {
        self.top + half(self.height)
    }

    /// Whether both extents are an even number of units, so that the centre
    /// and the quadrants lie on whole units.
    pub open spec fn halvable(self) -> bool {
        self.width % 2 == 0 && self.height % 2 == 0
    }

    /// Strict overlap on both axes: rectangles that only touch do not intersect.
    pub open spec fn intersects(self, other: Rect) -> bool {
        &&& self.left + self.width > other.left
        &&& other.left + other.width > self.left
        &&& self.top + self.height > other.top
        &&& other.top + other.height > self.top
    }

    /// The half-open point set `[left, right) x [top, bottom)`.
    pub open spec fn contains(self, px: int, py: int) -> bool {
        self.left <= px < self.right() && self.top <= py < self.bottom()
    }

    /// One quadrant of the rectangle, of half its size: the right-hand one when
    /// `right` holds, the lower one when `lower` holds.
    pub open spec fn quadrant(self, right: bool, lower: bool) -> Rect {
        let w = half(self.width);
        let h = half(self.height);
        Rect {
            left: if right { self.left + w } else { self.left },
            top: if lower { self.top + h } else { self.top },
            width: w,
            height: h,
        }
    }

    /// The rectangle with the same centre whose half-size is this one's size.
    pub open spec fn doubled(self) -> Rect {
        Rect {
            left: self.centre_x() - self.width,
            top: self.centre_y() - self.height,
            width: 2 * self.width,
            height: 2 * self.height,
        }
    }
}

/// An axis-aligned rectangle given by its top-left corner and its size.
/// The size is meant to be non-negative; nothing enforces it.
#[derive(Debug, Clone, Copy, PartialEq, Eq, Structural)]
pub struct Aabb {
    pub top_left_coord: Vec2,
    pub size: Vec2,
}

/// The four quadrants of a rectangle.
pub struct AabbSplitFour {
    pub top_left: Aabb,
    pub top_right: Aabb,
    pub bottom_left: Aabb,
    pub bottom_right: Aabb,
}

impl View for Aabb {
    type V = Rect;

    open spec fn view(&self) -> Rect {
        Rect {
            left: self.top_left_coord.x as int,
            top: self.top_left_coord.y as int,
            width: self.size.x as int,
            height: self.size.y as int,
        }
    }
}

fn half_i64(v: i64) -> (r: i64)
    ensures
        r == half(v as int),
        v % 2 == 0 ==> r * 2 == v,
{
    if v >= 0 {
        v / 2
    } else {
        let p: i64 = -(v + 1);
        let q: i64 = p / 2 + p % 2;
        -q
    }
}

impl Aabb {
    pub fn new(top_left_coord: Vec2, size: Vec2) -> (r: Aabb)
        ensures
            r.top_left_coord == top_left_coord,
            r.size == size,
    {
        Aabb { top_left_coord, size }
    }

    /// The rectangle with top-left corner `centre - half_size` and size
    /// `2 * half_size`.
    pub fn from_centre_and_half_size(centre: Vec2, half_size: Vec2) -> (r: Aabb)
        requires
            fits_i64(centre.x - half_size.x),
            fits_i64(centre.y - half_size.y),
            fits_i64(2 * half_size.x),
            fits_i64(2 * half_size.y),
        ensures
            r.top_left_coord.x == centre.x - half_size.x,
            r.top_left_coord.y == centre.y - half_size.y,
            r.size.x == 2 * half_size.x,
            r.size.y == 2 * half_size.y,
    {
        let top_left_coord = Vec2::new(centre.x - half_size.x, centre.y - half_size.y);
        let size = Vec2::new(half_size.x * 2, half_size.y * 2);
        Self::new(top_left_coord, size)
    }

    pub fn is_intersecting(&self, other: &Aabb) -> (r: bool)
        ensures
            r == self@.intersects(other@),
    {
        let (ax, ay) = (self.top_left_coord.x as i128, self.top_left_coord.y as i128);
        let (aw, ah) = (self.size.x as i128, self.size.y as i128);
        let (bx, by) = (other.top_left_coord.x as i128, other.top_left_coord.y as i128);
        let (bw, bh) = (other.size.x as i128, other.size.y as i128);
        ax + aw > bx && bx + bw > ax && ay + ah > by && by + bh > ay
    }

    /// The top-left corner moved by half the size. An odd extent has its
    /// centre between two units, where no `Vec2` lies: such rectangles are
    /// refused.
    pub fn centre(&self) -> (r: Vec2)
        requires
            self@.halvable(),
            fits_i64(self@.centre_x()),
            fits_i64(self@.centre_y()),
        ensures
            r.x == self@.centre_x(),
            r.y == self@.centre_y(),
    {
        Vec2::new(
            self.top_left_coord.x + half_i64(self.size.x),
            self.top_left_coord.y + half_i64(self.size.y),
        )
    }

    /// The four quadrants, each of exactly half the size. An odd extent
    /// cannot be halved in whole units: such rectangles are refused (see
    /// `try_split_four`).
    pub fn split_four(&self) -> (r: AabbSplitFour)
        requires
            self@.halvable(),
            fits_i64(self@.centre_x()),
            fits_i64(self@.centre_y()),
        ensures
            r.top_left@ == self@.quadrant(false, false),
            r.top_right@ == self@.quadrant(true, false),
            r.bottom_left@ == self@.quadrant(false, true),
            r.bottom_right@ == self@.quadrant(true, true),
            r.top_left.size.x * 2 == self.size.x,
            r.top_left.size.y * 2 == self.size.y,
    {
        let size = Vec2::new(half_i64(self.size.x), half_i64(self.size.y));
        let x = self.top_left_coord.x;
        let y = self.top_left_coord.y;
        AabbSplitFour {
            top_left: Self::new(self.top_left_coord, size),
            top_right: Self::new(Vec2::new(x + size.x, y), size),
            bottom_left: Self::new(Vec2::new(x, y + size.y), size),
            bottom_right: Self::new(Vec2::new(x + size.x, y + size.y), size),
        }
    }

    /// The quadrants when both extents are even and the centre fits in an
    /// `i64`; `None` otherwise.
    pub fn try_split_four(&self) -> (r: Option<AabbSplitFour>)
        ensures
            r is Some <==> self@.halvable() && fits_i64(self@.centre_x()) && fits_i64(
                self@.centre_y(),
            ),
            r matches Some(q) ==> {
                &&& q.top_left@ == self@.quadrant(false, false)
                &&& q.top_right@ == self@.quadrant(true, false)
                &&& q.bottom_left@ == self@.quadrant(false, true)
                &&& q.bottom_right@ == self@.quadrant(true, true)
            },
    {
        if self.size.x % 2 != 0 || self.size.y % 2 != 0 {
            return None;
        }
        let cx = self.top_left_coord.x as i128 + half_i64(self.size.x) as i128;
        let cy = self.top_left_coord.y as i128 + half_i64(self.size.y) as i128;
        if cx < i64::MIN as i128 || cx > i64::MAX as i128 || cy < i64::MIN as i128 || cy
            > i64::MAX as i128 {
            return None;
        }
        Some(self.split_four())
    }

    /// The rectangle of which this one would be a quadrant: same centre,
    /// half-size equal to this one's size.
    pub fn double_about_centre(&self) -> (r: Aabb)
        requires
            self@.halvable(),
            fits_i64(self@.centre_x()),
            fits_i64(self@.centre_y()),
            fits_i64(self@.doubled().left),
            fits_i64(self@.doubled().top),
            fits_i64(self@.doubled().width),
            fits_i64(self@.doubled().height),
        ensures
            r@ == self@.doubled(),
            r@.centre_x() == self@.centre_x(),
            r@.centre_y() == self@.centre_y(),
            r.size.x == 2 * self.size.x,
            r.size.y == 2 * self.size.y,
    {
        Self::from_centre_and_half_size(self.centre(), self.size)
    }
}

/// Intersection is symmetric, and rectangles that only share an edge or a
/// corner (one's right edge is the other's left edge, or one's bottom edge
/// the other's top edge) do not intersect.
pub proof fn lemma_intersection_symmetric(a: Rect, b: Rect)
    ensures
        a.intersects(b) == b.intersects(a),
        a.right() == b.left || b.right() == a.left ==> !a.intersects(b),
        a.bottom() == b.top || b.bottom() == a.top ==> !a.intersects(b),
{
}

/// For every size, the four quadrants have the same size, half the
/// rectangle's rounded toward zero, and no two of them intersect or share a
/// point; when the size is non-negative they lie within the rectangle, the
/// first one at its top-left corner.
pub proof fn lemma_split_four_disjoint(r: Rect)
    ensures
        forall|i: bool, j: bool|
            #![auto]
            r.quadrant(i, j).width == half(r.width) && r.quadrant(i, j).height == half(r.height),
        forall|i: bool, j: bool, k: bool, l: bool|
            (i != k || j != l) ==> !(#[trigger] r.quadrant(i, j)).intersects(
                #[trigger] r.quadrant(k, l),
            ),
        forall|i: bool, j: bool, k: bool, l: bool, px: int, py: int|
            (i != k || j != l) && #[trigger] r.quadrant(i, j).contains(px, py) ==> !(
            #[trigger] r.quadrant(k, l).contains(px, py)),
        r.width >= 0 && r.height >= 0 ==> forall|i: bool, j: bool|
            #![auto]
            r.left <= r.quadrant(i, j).left && r.quadrant(i, j).right() <= r.right() && r.top
                <= r.quadrant(i, j).top && r.quadrant(i, j).bottom() <= r.bottom(),
        r.quadrant(false, false).left == r.left,
        r.quadrant(false, false).top == r.top,
{
}

/// For every rectangle that `split_four` accepts, the quadrants tile it
/// exactly: each is half its size, every point of it lies in some quadrant,
/// and together they reach its right and bottom edges. Doubling a quadrant
/// gives a rectangle of the parent's size about the quadrant's own centre.
pub proof fn lemma_split_four_tiles(r: Rect)
    requires
        r.halvable(),
    ensures
        forall|i: bool, j: bool|
            #![auto]
            r.quadrant(i, j).width * 2 == r.width && r.quadrant(i, j).height * 2 == r.height,
        forall|px: int, py: int|
            #![auto]
            r.contains(px, py) == (r.quadrant(false, false).contains(px, py) || r.quadrant(
                true,
                false,
            ).contains(px, py) || r.quadrant(false, true).contains(px, py) || r.quadrant(
                true,
                true,
            ).contains(px, py)),
        r.quadrant(true, true).right() == r.right(),
        r.quadrant(true, true).bottom() == r.bottom(),
        forall|i: bool, j: bool|
            #![auto]
            r.quadrant(i, j).doubled().width == r.width && r.quadrant(i, j).doubled().height
                == r.height,
{
}

/// Doubling keeps the centre where it was and doubles the size.
pub proof fn lemma_double_keeps_centre(r: Rect)
    ensures
        r.doubled().centre_x() == r.centre_x(),
        r.doubled().centre_y() == r.centre_y(),
        r.doubled().width == 2 * r.width,
        r.doubled().height == 2 * r.height,
{
}

} // verus!
