use vstd::prelude::*;

verus! {

/// A non-negative integer coordinate.
#[derive(Copy, Clone, Debug, PartialEq, Eq, Structural)]
pub struct Point {
    pub x: usize,
    pub y: usize,
}

impl Point {
    pub fn new(x: usize, y: usize) -> (r: Point)
        ensures
            r.x == x,
            r.y == y,
    {
        Point { x, y }
    }

    pub fn as_zero() -> (r: Point)
        ensures
            r.x == 0,
            r.y == 0,
    {
        Point { x: 0, y: 0 }
    }

    /// This point offset by `(x, y)`.
    pub fn add(&self, x: usize, y: usize) -> (r: Point)
        requires
            self.x + x <= usize::MAX,
            self.y + y <= usize::MAX,
        ensures
            r.x == self.x + x,
            r.y == self.y + y,
    {
        Point { x: self.x + x, y: self.y + y }
    }

    /// One point for each pair, in order.
    pub fn new_vec(data: Vec<(usize, usize)>) -> (r: Vec<Point>)
        ensures
            r@.len() == data@.len(),
            forall|i: int|
                0 <= i < data@.len() ==> (#[trigger] r@[i]).x == data@[i].0 && r@[i].y
                    == data@[i].1,
    {
        let mut out: Vec<Point> = Vec::with_capacity(data.len());
        let mut i: usize = 0;
        while i < data.len()
            invariant
                i <= data@.len(),
                out@.len() == i,
                forall|j: int|
                    0 <= j < i ==> (#[trigger] out@[j]).x == data@[j].0 && out@[j].y
                        == data@[j].1,
            decreases data@.len() - i,
        {
            let (x, y) = data[i];
            out.push(Point::new(x, y));
            i = i + 1;
        }
        out
    }
}

/// Width and height of a widget.
#[derive(Copy, Clone, Debug, PartialEq, Eq, Structural)]
pub struct Size {
    pub width: usize,
    pub height: usize,
}

impl Size {
    pub fn new(width: usize, height: usize) -> (r: Size)
        ensures
            r.width == width,
            r.height == height,
    {
        Size { width, height }
    }

    pub fn as_zero() -> (r: Size)
        ensures
            r.width == 0,
            r.height == 0,
    {
        Size { width: 0, height: 0 }
    }
}

/// Padding on each side of a widget's content area.
#[derive(Copy, Clone, Debug, PartialEq, Eq, Structural)]
pub struct Border {
    pub top: usize,
    pub bottom: usize,
    pub left: usize,
    pub right: usize,
}

impl Border {
    pub fn new(top: usize, bottom: usize, left: usize, right: usize) -> (r: Border)
        ensures
            r == (Border { top, bottom, left, right }),
    {
        Border { top, bottom, left, right }
    }

    pub fn as_zero() -> (r: Border)
        ensures
            r == (Border { top: 0, bottom: 0, left: 0, right: 0 }),
    {
        Border { top: 0, bottom: 0, left: 0, right: 0 }
    }
}

} // verus!
