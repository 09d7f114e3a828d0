//! Geometry primitives: lengths, points, sizes, and the axis-indexed
//! two-component containers underlying all layout math.

use vstd::prelude::*;

verus! {

/// Upper bound, in layout units, on any single length the engine accepts.
/// Keeping every length below this bound lets all layout arithmetic stay
/// well inside the range of `i64`.
pub const MAX_UNITS: i64 = 1_000_000_000;

/// An absolute length, counted in integer layout units.
#[derive(Clone, Copy, PartialEq, Eq, Structural, Hash, Debug)]
pub struct Length {
    /// The number of layout units.
    pub units: i64,
}

impl Length {
    /// A length is well-formed when it is nonnegative and within the unit bound.
    pub open spec fn wf(self) -> bool {
        0 <= self.units <= MAX_UNITS
    }

    /// The zero length.
    pub fn zero() -> (r: Length)
        ensures
            r.units == 0,
    {
        Length { units: 0 }
    }

    /// Create a length from a unit count.
    pub fn new(units: i64) -> (r: Length)
        ensures
            r.units == units,
    {
        Length { units }
    }
}

/// A point on the two physical axes.
#[derive(Clone, Copy, PartialEq, Eq, Structural, Hash, Debug)]
pub struct Point {
    /// The horizontal coordinate.
    pub x: Length,
    /// The vertical coordinate.
    pub y: Length,
}

impl Point {
    /// Create a new point from the two coordinates.
    pub fn new(x: Length, y: Length) -> (r: Point)
        ensures
            r.x == x,
            r.y == y,
    {
        Point { x, y }
    }
}

/// A size on the two physical axes.
#[derive(Clone, Copy, PartialEq, Eq, Structural, Hash, Debug)]
pub struct Size {
    /// The horizontal extent.
    pub x: Length,
    /// The vertical extent.
    pub y: Length,
}

impl Size {
    /// A size is well-formed when both extents are.
    pub open spec fn wf(self) -> bool {
        self.x.wf() && self.y.wf()
    }

    /// Create a new size from the two extents.
    pub fn new(x: Length, y: Length) -> (r: Size)
        ensures
            r.x == x,
            r.y == y,
    {
        Size { x, y }
    }
}

/// A container with a horizontal and a vertical component.
#[derive(Clone, Copy, PartialEq, Eq, Hash, Debug)]
pub struct Spec<T> {
    /// The horizontal component.
    pub x: T,
    /// The vertical component.
    pub y: T,
}

impl<T> Spec<T> {
    /// Create a new instance from the two components.
    pub fn new(x: T, y: T) -> (r: Spec<T>)
        ensures
            r.x == x,
            r.y == y,
    {
        Spec { x, y }
    }

    /// Create a new instance with two equal components.
    pub fn splat(v: T) -> (r: Spec<T>) where T: Clone
        ensures
            cloned::<T>(v, r.x),
            r.y == v,
    {
        Spec { x: v.clone(), y: v }
    }

    /// Maps the individual fields with `f`.
    pub fn map<F, U>(self, f: F) -> (r: Spec<U>) where F: Fn(T) -> U
        requires
            call_requires(f, (self.x,)),
            call_requires(f, (self.y,)),
        ensures
            call_ensures(f, (self.x,), r.x),
            call_ensures(f, (self.y,), r.y),
    {
        let Spec { x, y } = self;
        Spec { x: f(x), y: f(y) }
    }

    /// Convert to the generic representation, given which physical axis is
    /// the block axis.
    pub fn to_gen(self, block: SpecAxis) -> (r: Gen<T>)
        ensures
            block == SpecAxis::Horizontal ==> r.block == self.x && r.inline == self.y,
            block == SpecAxis::Vertical ==> r.block == self.y && r.inline == self.x,
    {
        match block {
            SpecAxis::Horizontal => Gen::new(self.y, self.x),
            SpecAxis::Vertical => Gen::new(self.x, self.y),
        }
    }

    /// Compares if this instance's fields are equal to those of another with
    /// respect to `eq`.
    pub fn eq_by<U, F>(&self, other: &Spec<U>, eq: F) -> (r: bool) where F: Fn(&T, &U) -> bool
        requires
            call_requires(eq, (&self.x, &other.x)),
            call_requires(eq, (&self.y, &other.y)),
        ensures
            r ==> call_ensures(eq, (&self.x, &other.x), true)
                && call_ensures(eq, (&self.y, &other.y), true),
            !r ==> call_ensures(eq, (&self.x, &other.x), false)
                || call_ensures(eq, (&self.y, &other.y), false),
    {
        eq(&self.x, &other.x) && eq(&self.y, &other.y)
    }

    /// The component on the given axis.
    pub fn get(self, axis: SpecAxis) -> (r: T)
        ensures
            axis == SpecAxis::Horizontal ==> r == self.x,
            axis == SpecAxis::Vertical ==> r == self.y,
    {
        match axis {
            SpecAxis::Horizontal => self.x,
            SpecAxis::Vertical => self.y,
        }
    }

    /// Borrow the component on the given axis mutably.
    pub fn get_mut(&mut self, axis: SpecAxis) -> (r: &mut T)
        ensures
            axis == SpecAxis::Horizontal ==> *r == old(self).x && *final(self) == (Spec {
                x: *final(r),
                y: old(self).y,
            }),
            axis == SpecAxis::Vertical ==> *r == old(self).y && *final(self) == (Spec {
                x: old(self).x,
                y: *final(r),
            }),
    {
        match axis {
            SpecAxis::Horizontal => &mut self.x,
            SpecAxis::Vertical => &mut self.y,
        }
    }
}

impl Spec<Length> {
    /// The zero value.
    pub fn zero() -> (r: Spec<Length>)
        ensures
            r.x.units == 0,
            r.y.units == 0,
    {
        Spec { x: Length::zero(), y: Length::zero() }
    }

    /// Convert to a point.
    pub fn to_point(self) -> (r: Point)
        ensures
            r.x == self.x,
            r.y == self.y,
    {
        Point::new(self.x, self.y)
    }

    /// Convert to a size.
    pub fn to_size(self) -> (r: Size)
        ensures
            r.x == self.x,
            r.y == self.y,
    {
        Size::new(self.x, self.y)
    }
}

impl<T> Spec<Option<T>> {
    /// Unwrap the individual fields, falling back to `other`.
    pub fn unwrap_or(self, other: Spec<T>) -> (r: Spec<T>)
        ensures
            self.x is Some ==> r.x == self.x.unwrap(),
            self.x is None ==> r.x == other.x,
            self.y is Some ==> r.y == self.y.unwrap(),
            self.y is None ==> r.y == other.y,
    {
        Spec {
            x: match self.x {
                Some(v) => v,
                None => other.x,
            },
            y: match self.y {
                Some(v) => v,
                None => other.y,
            },
        }
    }
}

/// The block and inline components of a value, given a block axis.
#[derive(Clone, Copy, PartialEq, Eq, Hash, Debug)]
pub struct Gen<T> {
    /// The component on the inline axis.
    pub inline: T,
    /// The component on the block axis.
    pub block: T,
}

impl<T> Gen<T> {
    /// Create a new instance from the two components.
    pub fn new(inline: T, block: T) -> (r: Gen<T>)
        ensures
            r.inline == inline,
            r.block == block,
    {
        Gen { inline, block }
    }
}

/// The two specific layouting axes.
#[derive(Debug, Clone, Copy, PartialEq, Eq, Structural)]
pub enum SpecAxis {
    /// The horizontal layouting axis.
    Horizontal,
    /// The vertical layouting axis.
    Vertical,
}

impl SpecAxis {
    /// The direction with the given positivity for this axis.
    pub fn dir(self, positive: bool) -> (r: Dir)
        ensures
            self == SpecAxis::Horizontal && positive ==> r == Dir::LTR,
            self == SpecAxis::Horizontal && !positive ==> r == Dir::RTL,
            self == SpecAxis::Vertical && positive ==> r == Dir::TTB,
            self == SpecAxis::Vertical && !positive ==> r == Dir::BTT,
    {
        match (self, positive) {
            (SpecAxis::Horizontal, true) => Dir::LTR,
            (SpecAxis::Horizontal, false) => Dir::RTL,
            (SpecAxis::Vertical, true) => Dir::TTB,
            (SpecAxis::Vertical, false) => Dir::BTT,
        }
    }

    /// The other axis.
    pub fn other(self) -> (r: SpecAxis)
        ensures
            self == SpecAxis::Horizontal ==> r == SpecAxis::Vertical,
            self == SpecAxis::Vertical ==> r == SpecAxis::Horizontal,
    {
        match self {
            SpecAxis::Horizontal => SpecAxis::Vertical,
            SpecAxis::Vertical => SpecAxis::Horizontal,
        }
    }
}

/// The four physical layouting directions.
#[derive(Debug, Clone, Copy, PartialEq, Eq, Structural)]
pub enum Dir {
    /// Left to right.
    LTR,
    /// Right to left.
    RTL,
    /// Top to bottom.
    TTB,
    /// Bottom to top.
    BTT,
}

} // verus!
