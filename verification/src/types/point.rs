use core::cmp::Ordering;
use vstd::prelude::*;

verus! {

/// A position in the document: column `x` counted in graphemes, row `y`
/// counted in lines. Points are ordered by row, then by column; the row is
/// declared first so that the derived `Ord` is that order too.
#[derive(Debug, Clone, Copy, PartialEq, Eq, Ord, Structural)]
pub struct Point {
    pub y: usize,
    pub x: usize,
}

/// The mathematical position that a [`Point`] stands for.
pub struct Pos {
    pub x: nat,
    pub y: nat,
}

impl Pos {
    /// Strict row-major order: an earlier row first, then an earlier column.
    pub open spec fn precedes(self, other: Pos) -> bool {
        self.y < other.y || (self.y == other.y && self.x < other.x)
    }

    /// Row-major order, equality included.
    pub open spec fn at_or_before(self, other: Pos) -> bool {
        self.precedes(other) || self == other
    }
}

impl View for Point {
    type V = Pos;

    open spec fn view(&self) -> Pos {
        Pos { x: self.x as nat, y: self.y as nat }
    }
}

impl Point {
    /// Strict row-major order: an earlier row first, then an earlier column.
    pub open spec fn precedes(self, other: Point) -> bool {
        self.y < other.y || (self.y == other.y && self.x < other.x)
    }

    pub fn new(x: usize, y: usize) -> (p: Self)
        ensures
            p.x == x,
            p.y == y,
    {
        Self { x, y }
    }

    pub fn zero() -> (p: Self)
        ensures
            p.x == 0,
            p.y == 0,
    {
        Self { x: 0, y: 0 }
    }
}

impl PartialOrd for Point {
    fn partial_cmp(&self, other: &Self) -> (r: Option<Ordering>) {
        if self.y < other.y {
            Some(Ordering::Less)
        } else if self.y > other.y {
            Some(Ordering::Greater)
        } else if self.x < other.x {
            Some(Ordering::Less)
        } else if self.x > other.x {
            Some(Ordering::Greater)
        } else {
            Some(Ordering::Equal)
        }
    }
}

impl vstd::std_specs::cmp::PartialOrdSpecImpl for Point {
    open spec fn obeys_partial_cmp_spec() -> bool {
        true
    }

    open spec fn partial_cmp_spec(&self, other: &Self) -> Option<Ordering> {
        if self.precedes(*other) {
            Some(Ordering::Less)
        } else if other.precedes(*self) {
            Some(Ordering::Greater)
        } else {
            Some(Ordering::Equal)
        }
    }
}

/// The order on points is total: of two points, one precedes the other or
/// they are equal, and never two of these at once.
pub proof fn lemma_point_order_total(a: Point, b: Point)
    ensures
        a.precedes(b) || b.precedes(a) || a == b,
        !(a.precedes(b) && b.precedes(a)),
        !(a.precedes(b) && a == b),
{
}

/// The order on points is transitive.
pub proof fn lemma_point_order_transitive(a: Point, b: Point, c: Point)
    requires
        a.precedes(b),
        b.precedes(c),
    ensures
        a.precedes(c),
{
}

} // verus!
