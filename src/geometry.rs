use vstd::prelude::*;

verus! {

/// A point in a plane.
#[derive(Debug, Clone, Copy, PartialEq, Eq, Structural)]
pub struct Point<T> {
    pub x: T,
    pub y: T,
}

impl<T> Point<T> {
    #[inline]
    pub fn new(x: T, y: T) -> (r: Self)
        ensures
            r.x == x,
            r.y == y,
    {
        Self { x, y }
    }
}

/// Whether `a + b` is representable on both axes.
pub open spec fn point_sum_fits(a: Point<i32>, b: Point<i32>) -> bool {
    i32::MIN <= a.x + b.x <= i32::MAX && i32::MIN <= a.y + b.y <= i32::MAX
}

/// Whether `a - b` is representable on both axes.
pub open spec fn point_difference_fits(a: Point<i32>, b: Point<i32>) -> bool {
    i32::MIN <= a.x - b.x <= i32::MAX && i32::MIN <= a.y - b.y <= i32::MAX
}

impl Point<i32> {
    /// The origin, (0, 0).
    #[inline]
    pub fn zero() -> (r: Self)
        ensures
            r.x == 0,
            r.y == 0,
    {
        Self::new(0, 0)
    }

    #[inline]
    pub fn is_zero(&self) -> (r: bool)
        ensures
            r == (self.x == 0 && self.y == 0),
    {
        self.x == 0 && self.y == 0
    }

    #[inline]
    pub fn set_zero(&mut self)
        ensures
            final(self).x == 0,
            final(self).y == 0,
    {
        self.x = 0;
        self.y = 0;
    }
}

impl<T> From<(T, T)> for Point<T> {
    #[inline]
    fn from(value: (T, T)) -> (r: Self) {
        Point::new(value.0, value.1)
    }
}

impl<T> vstd::std_specs::convert::FromSpecImpl<(T, T)> for Point<T> {
    open spec fn obeys_from_spec() -> bool {
        true
    }

    open spec fn from_spec(v: (T, T)) -> Self {
        Point { x: v.0, y: v.1 }
    }
}

impl std::ops::Add<Point<i32>> for Point<i32> {
    type Output = Point<i32>;

    #[inline]
    fn add(self, rhs: Point<i32>) -> (r: Point<i32>) {
        Self::new(self.x + rhs.x, self.y + rhs.y)
    }
}

impl vstd::std_specs::ops::AddSpecImpl<Point<i32>> for Point<i32> {
    open spec fn obeys_add_spec() -> bool {
        true
    }

    open spec fn add_req(self, rhs: Point<i32>) -> bool {
        point_sum_fits(self, rhs)
    }

    open spec fn add_spec(self, rhs: Point<i32>) -> Point<i32> {
        Point { x: (self.x + rhs.x) as i32, y: (self.y + rhs.y) as i32 }
    }
}

impl std::ops::Sub<Point<i32>> for Point<i32> {
    type Output = Point<i32>;

    #[inline]
    fn sub(self, rhs: Point<i32>) -> (r: Point<i32>) {
        Self::new(self.x - rhs.x, self.y - rhs.y)
    }
}

impl vstd::std_specs::ops::SubSpecImpl<Point<i32>> for Point<i32> {
    open spec fn obeys_sub_spec() -> bool {
        true
    }

    open spec fn sub_req(self, rhs: Point<i32>) -> bool {
        point_difference_fits(self, rhs)
    }

    open spec fn sub_spec(self, rhs: Point<i32>) -> Point<i32> {
        Point { x: (self.x - rhs.x) as i32, y: (self.y - rhs.y) as i32 }
    }
}

/// An axis-aligned rectangle: `(x, y)` is its top-left corner, `w` and `h` its extents.
#[derive(Debug, Clone, Copy, PartialEq, Eq, Structural)]
pub struct Rect<T> {
    pub x: T,
    pub y: T,
    pub w: T,
    pub h: T,
}

impl Rect<i32> {
    pub open spec fn right_spec(self) -> int {
        self.x + self.w
    }

    pub open spec fn bottom_spec(self) -> int {
        self.y + self.h
    }

    /// Whether the right and bottom edges are representable.
    pub open spec fn edges_fit(self) -> bool {
        i32::MIN <= self.right_spec() <= i32::MAX && i32::MIN <= self.bottom_spec() <= i32::MAX
    }

    /// Closed intervals `[left, right]` and `[top, bottom]` overlap on both axes.
    pub open spec fn intersects_spec(self, other: Rect<i32>) -> bool {
        &&& self.right_spec() >= other.x
        &&& self.x <= other.right_spec()
        &&& self.bottom_spec() >= other.y
        &&& self.y <= other.bottom_spec()
    }

    /// `p` lies within the closed bounds of the rectangle.
    pub open spec fn contains_spec(self, p: Point<i32>) -> bool {
        &&& self.x <= p.x <= self.right_spec()
        &&& self.y <= p.y <= self.bottom_spec()
    }

    /// The rectangle moved by `p`, with its extents kept.
    pub open spec fn offset_spec(self, p: Point<i32>) -> Rect<i32> {
        Rect { x: (self.x + p.x) as i32, y: (self.y + p.y) as i32, w: self.w, h: self.h }
    }

    #[inline]
    pub fn top(&self) -> (r: i32)
        ensures
            r == self.y,
    {
        self.y
    }

    #[inline]
    pub fn left(&self) -> (r: i32)
        ensures
            r == self.x,
    {
        self.x
    }

    #[inline]
    pub fn right(&self) -> (r: i32)
        requires
            i32::MIN <= self.right_spec() <= i32::MAX,
        ensures
            r == self.right_spec(),
    {
        self.x + self.w
    }

    #[inline]
    pub fn bottom(&self) -> (r: i32)
        requires
            i32::MIN <= self.bottom_spec() <= i32::MAX,
        ensures
            r == self.bottom_spec(),
    {
        self.y + self.h
    }

    #[inline]
    pub fn top_left(&self) -> (r: Point<i32>)
        ensures
            r.x == self.x,
            r.y == self.y,
    {
        Point::new(self.x, self.y)
    }

    /// Whether the two rectangles overlap; touching edges count as overlapping.
    pub fn intersects(&self, other: Rect<i32>) -> (r: bool)
        ensures
            r == self.intersects_spec(other),
    {
        let right = self.x as i64 + self.w as i64;
        let bottom = self.y as i64 + self.h as i64;
        let other_right = other.x as i64 + other.w as i64;
        let other_bottom = other.y as i64 + other.h as i64;
        right >= other.x as i64 && self.x as i64 <= other_right && bottom >= other.y as i64
            && self.y as i64 <= other_bottom
    }

    /// Whether `point` lies inside the rectangle or on its border.
    pub fn contains(&self, point: Point<i32>) -> (r: bool)
        ensures
            r == self.contains_spec(point),
    {
        let right = self.x as i64 + self.w as i64;
        let bottom = self.y as i64 + self.h as i64;
        point.x >= self.x && point.x as i64 <= right && point.y >= self.y && point.y as i64
            <= bottom
    }
}

impl std::ops::Add<Point<i32>> for Rect<i32> {
    type Output = Rect<i32>;

    #[inline]
    fn add(self, rhs: Point<i32>) -> (r: Rect<i32>) {
        Rect { x: self.x + rhs.x, y: self.y + rhs.y, w: self.w, h: self.h }
    }
}

impl vstd::std_specs::ops::AddSpecImpl<Point<i32>> for Rect<i32> {
    open spec fn obeys_add_spec() -> bool {
        true
    }

    open spec fn add_req(self, rhs: Point<i32>) -> bool {
        point_sum_fits(self.top_left_spec(), rhs)
    }

    open spec fn add_spec(self, rhs: Point<i32>) -> Rect<i32> {
        self.offset_spec(rhs)
    }
}

impl Rect<i32> {
    pub open spec fn top_left_spec(self) -> Point<i32> {
        Point { x: self.x, y: self.y }
    }
}

/// Overlap of rectangles does not depend on the order in which they are given.
pub proof fn lemma_intersects_symmetric(a: Rect<i32>, b: Rect<i32>)
    ensures
        a.intersects_spec(b) == b.intersects_spec(a),
{
}

/// Rectangles placed side by side, the second starting on the right edge of the first,
/// overlap wherever their vertical spans meet: shared edges count.
pub proof fn lemma_adjacent_rects_intersect(a: Rect<i32>, b: Rect<i32>)
    requires
        a.w >= 0,
        b.w >= 0,
        b.x == a.right_spec(),
        a.y <= b.bottom_spec(),
        b.y <= a.bottom_spec(),
    ensures
        a.intersects_spec(b),
        b.intersects_spec(a),
{
}

} // verus!
