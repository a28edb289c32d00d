//! The rectangle tool: a press fixes one corner, motions move the opposite
//! one, and a release hands both corners back.
//!
//! Turning the two corners into an origin and a size, and dropping
//! rectangles too small to be meant, is arithmetic on the coordinate type and
//! is left to the caller that knows that type.
use vstd::prelude::*;

verus! {

/// State of the rectangle tool: the corner where the button went down and
/// the corner under the pointer.
pub struct RectTool<X> {
    pub start: Option<(X, X)>,
    pub current: Option<(X, X)>,
}

impl<X> RectTool<X> {
    /// After a press at `(x, y)`: both corners are there.
    pub open spec fn pressed(self, x: X, y: X) -> Self {
        RectTool { start: Some((x, y)), current: Some((x, y)) }
    }

    /// After a motion to `(x, y)`: the moving corner follows, once a drag has
    /// started.
    pub open spec fn moved(self, x: X, y: X) -> Self {
        if self.start is Some {
            RectTool { current: Some((x, y)), ..self }
        } else {
            self
        }
    }

    /// After a series of motions through `path`, in order.
    pub open spec fn moved_along(self, path: Seq<(X, X)>) -> Self
        decreases path.len(),
    {
        if path.len() == 0 {
            self
        } else {
            self.moved_along(path.drop_last()).moved(path.last().0, path.last().1)
        }
    }

    /// The two corners of the drag in progress: the fixed one first.
    pub open spec fn drag(self) -> Option<((X, X), (X, X))> {
        match (self.start, self.current) {
            (Some(s), Some(e)) => Some((s, e)),
            _ => None,
        }
    }

    /// After a release: the fixed corner is gone, and so is the moving one
    /// when there was a fixed corner.
    pub open spec fn released(self) -> Self {
        if self.start is Some {
            RectTool { start: None, current: None }
        } else {
            self
        }
    }
}

impl<X: Copy> RectTool<X> {
    /// A tool with no drag in progress.
    pub fn new() -> (t: Self)
        ensures
            t.start is None,
            t.current is None,
    {
        RectTool { start: None, current: None }
    }

    /// Button pressed at `(x, y)`.
    pub fn press(&mut self, x: X, y: X)
        ensures
            *final(self) == old(self).pressed(x, y),
    {
        self.start = Some((x, y));
        self.current = Some((x, y));
    }

    /// Pointer moved to `(x, y)`.
    pub fn motion(&mut self, x: X, y: X)
        ensures
            *final(self) == old(self).moved(x, y),
    {
        if self.start.is_some() {
            self.current = Some((x, y));
        }
    }

    /// Button released: ends the drag and hands back its two corners, the
    /// fixed one first.
    pub fn release(&mut self) -> (r: Option<((X, X), (X, X))>)
        ensures
            *final(self) == old(self).released(),
            r == old(self).drag(),
    {
        let start = match self.start.take() {
            Some(s) => s,
            None => return None,
        };
        let end = match self.current.take() {
            Some(e) => e,
            None => return None,
        };
        Some((start, end))
    }

    /// The two corners of the drag in progress, for drawing a preview.
    pub fn current_rect(&self) -> (r: Option<((X, X), (X, X))>)
        ensures
            r == self.drag(),
    {
        let start = match self.start {
            Some(s) => s,
            None => return None,
        };
        let end = match self.current {
            Some(e) => e,
            None => return None,
        };
        Some((start, end))
    }
}

/// After a press, the moving corner is the press point or the last point the
/// pointer moved to; the fixed corner stays at the press point.
pub proof fn lemma_drag_follows_pointer<X>(t: RectTool<X>, x: X, y: X, path: Seq<(X, X)>)
    ensures
        t.pressed(x, y).moved_along(path).drag() == Some(
            ((x, y), if path.len() == 0 { (x, y) } else { path.last() }),
        ),
    decreases path.len(),
{
    if path.len() > 0 {
        lemma_drag_follows_pointer(t, x, y, path.drop_last());
    }
}

/// A release after a press hands back the drag's corners and leaves the tool
/// idle, so a second release hands back nothing.
pub proof fn lemma_release_ends_drag<X>(t: RectTool<X>, x: X, y: X, path: Seq<(X, X)>)
    ensures
        t.pressed(x, y).moved_along(path).released() == (RectTool::<X> { start: None, current: None }),
        t.pressed(x, y).moved_along(path).released().drag() is None,
    decreases path.len(),
{
    if path.len() > 0 {
        lemma_release_ends_drag(t, x, y, path.drop_last());
    }
}

/// Before a press, motions change nothing and a release hands back nothing.
pub proof fn lemma_idle_tool<X>(t: RectTool<X>, path: Seq<(X, X)>)
    requires
        t.start is None,
    ensures
        t.moved_along(path) == t,
        t.drag() is None,
        t.released() == t,
    decreases path.len(),
{
    if path.len() > 0 {
        lemma_idle_tool(t, path.drop_last());
    }
}

} // verus!
