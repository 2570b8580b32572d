//! Half-open intervals and rectangles on the integer plane, used to decide
//! whether ships and cells overlap.

use vstd::prelude::*;

verus! {

/// A point of the integer plane: `(x, y)`.
#[derive(Debug, Clone, Copy, PartialEq, Eq, Structural)]
pub struct Point(pub i8, pub i8);

impl Point {
    /// The point moved by `(dx, dy)`.
    pub open spec fn moved(self, dx: int, dy: int) -> (int, int) {
        (self.0 + dx, self.1 + dy)
    }

    /// Moves the point by `(dx, dy)`.
    pub fn offset(self, dx: i8, dy: i8) -> (p: Point)
        requires
            i8::MIN <= self.0 + dx <= i8::MAX,
            i8::MIN <= self.1 + dy <= i8::MAX,
        ensures
            (p.0 as int, p.1 as int) == self.moved(dx as int, dy as int),
    {
        Point(self.0 + dx, self.1 + dy)
    }
}

/// The half-open interval `[self.0, self.1)`.
#[derive(Debug, Clone, Copy, PartialEq, Eq, Structural)]
pub struct Interval(pub i8, pub i8);

impl Interval {
    /// The integers of the interval.
    pub open spec fn holds(self, x: int) -> bool {
        self.0 <= x < self.1
    }

    /// Whether the interval has at least one integer.
    pub open spec fn inhabited(self) -> bool {
        self.0 < self.1
    }

    /// Whether the start of one interval lies in the other.
    pub open spec fn meets(self, rhs: Interval) -> bool {
        self.holds(rhs.0 as int) || rhs.holds(self.0 as int)
    }

    /// Whether `x` lies in the interval.
    pub fn contains(&self, x: i8) -> (inside: bool)
        ensures
            inside == self.holds(x as int),
    {
        self.0 <= x && x < self.1
    }

    /// Whether the two intervals meet: the start of one lies in the other.
    pub fn intersects(self, rhs: Interval) -> (met: bool)
        ensures
            met == self.meets(rhs),
    {
        self.contains(rhs.0) || rhs.contains(self.0)
    }

    /// Two inhabited intervals meet exactly when they share an integer.
    pub proof fn lemma_meets_is_common_point(self, rhs: Interval)
        requires
            self.inhabited(),
            rhs.inhabited(),
        ensures
            self.meets(rhs) <==> exists|x: int| self.holds(x) && rhs.holds(x),
    {
        if self.meets(rhs) {
            if self.holds(rhs.0 as int) {
                assert(self.holds(rhs.0 as int) && rhs.holds(rhs.0 as int));
            } else {
                assert(self.holds(self.0 as int) && rhs.holds(self.0 as int));
            }
        }
    }
}

/// The rectangle between an upper-left corner (inclusive) and a lower-right
/// corner (exclusive).
#[derive(Debug, Clone, Copy, PartialEq, Eq, Structural)]
pub struct Rectangle(pub Point, pub Point);

impl Rectangle {
    /// The rectangle's extent along `x`.
    pub open spec fn span_x(self) -> Interval {
        Interval(self.0.0, self.1.0)
    }

    /// The rectangle's extent along `y`.
    pub open spec fn span_y(self) -> Interval {
        Interval(self.0.1, self.1.1)
    }

    /// The cells of the rectangle.
    pub open spec fn covers(self, x: int, y: int) -> bool {
        self.span_x().holds(x) && self.span_y().holds(y)
    }

    /// Whether the rectangle has at least one cell.
    pub open spec fn inhabited(self) -> bool {
        self.span_x().inhabited() && self.span_y().inhabited()
    }

    /// Whether the two rectangles meet along both axes.
    pub open spec fn meets(self, rhs: Rectangle) -> bool {
        self.span_x().meets(rhs.span_x()) && self.span_y().meets(rhs.span_y())
    }

    /// The rectangle's extents along `x` and along `y`.
    pub fn as_interval_pair(self) -> (spans: (Interval, Interval))
        ensures
            spans.0 == self.span_x(),
            spans.1 == self.span_y(),
    {
        (Interval(self.0.0, self.1.0), Interval(self.0.1, self.1.1))
    }

    /// The single cell at `p`.
    pub fn cell(p: Point) -> (r: Rectangle)
        requires
            p.0 < i8::MAX,
            p.1 < i8::MAX,
        ensures
            r.0 == p,
            r.1.0 == p.0 + 1,
            r.1.1 == p.1 + 1,
            forall|x: int, y: int| r.covers(x, y) <==> (x == p.0 && y == p.1),
    {
        Rectangle(p, p.offset(1, 1))
    }

    /// The rectangle with both corners moved, each by its own offset.
    pub fn grown(self, by: Rectangle) -> (r: Rectangle)
        requires
            i8::MIN <= self.0.0 + by.0.0 <= i8::MAX,
            i8::MIN <= self.0.1 + by.0.1 <= i8::MAX,
            i8::MIN <= self.1.0 + by.1.0 <= i8::MAX,
            i8::MIN <= self.1.1 + by.1.1 <= i8::MAX,
        ensures
            r.0.0 == self.0.0 + by.0.0,
            r.0.1 == self.0.1 + by.0.1,
            r.1.0 == self.1.0 + by.1.0,
            r.1.1 == self.1.1 + by.1.1,
    {
        Rectangle(self.0.offset(by.0.0, by.0.1), self.1.offset(by.1.0, by.1.1))
    }

    /// Two inhabited rectangles meet exactly when they share a cell.
    pub proof fn lemma_meets_is_common_cell(self, rhs: Rectangle)
        requires
            self.inhabited(),
            rhs.inhabited(),
        ensures
            self.meets(rhs) <==> exists|x: int, y: int| self.covers(x, y) && rhs.covers(x, y),
    {
        self.span_x().lemma_meets_is_common_point(rhs.span_x());
        self.span_y().lemma_meets_is_common_point(rhs.span_y());
        if self.meets(rhs) {
            let x = choose|x: int| self.span_x().holds(x) && rhs.span_x().holds(x);
            let y = choose|y: int| self.span_y().holds(y) && rhs.span_y().holds(y);
            assert(self.covers(x, y) && rhs.covers(x, y));
        }
        if exists|x: int, y: int| self.covers(x, y) && rhs.covers(x, y) {
            let (x, y) = choose|x: int, y: int| self.covers(x, y) && rhs.covers(x, y);
            assert(self.span_x().holds(x) && rhs.span_x().holds(x));
            assert(self.span_y().holds(y) && rhs.span_y().holds(y));
        }
    }
}

/// Whether the two rectangles meet along both axes.
pub fn overlaps(a: Rectangle, b: Rectangle) -> (met: bool)
    ensures
        met == a.meets(b),
{
    let (i1, i2) = a.as_interval_pair();
    let (j1, j2) = b.as_interval_pair();
    i1.intersects(j1) && i2.intersects(j2)
}

} // verus!
