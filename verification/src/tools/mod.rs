//! Annotation data and the drawing tools that produce it.
//!
//! Coordinates, colours and line widths are type parameters: the tools only
//! store and hand them on, so their behaviour does not depend on what they are.
use vstd::prelude::*;

pub mod brush;
pub mod rect;

verus! {

/// A stroke as a mathematical value: its points in drawing order, its colour
/// and its line width.
pub struct StrokeView<X, C, W> {
    pub points: Seq<(X, X)>,
    pub color: C,
    pub width: W,
}

/// A brush stroke: a polyline with a colour and a line width.
pub struct Stroke<X, C, W> {
    pub points: Vec<(X, X)>,
    pub color: C,
    pub width: W,
}

impl<X, C, W> View for Stroke<X, C, W> {
    type V = StrokeView<X, C, W>;

    open spec fn view(&self) -> StrokeView<X, C, W> {
        StrokeView { points: self.points@, color: self.color, width: self.width }
    }
}

impl<X, C, W> Stroke<X, C, W> {
    /// An empty stroke with the given colour and width.
    pub fn new(color: C, width: W) -> (s: Self)
        ensures
            s@ == (StrokeView { points: Seq::<(X, X)>::empty(), color, width }),
    {
        Stroke { points: Vec::new(), color, width }
    }

    /// Appends a point at the end of the stroke.
    pub fn add_point(&mut self, x: X, y: X)
        ensures
            final(self)@ == (StrokeView { points: old(self)@.points.push((x, y)), ..old(self)@ }),
    {
        self.points.push((x, y));
    }
}

} // verus!
