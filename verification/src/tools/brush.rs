//! The brush tool: a press starts a stroke, motions extend it, and a release
//! finishes it.
use vstd::prelude::*;
use super::{Stroke, StrokeView};

verus! {

/// The brush tool as a mathematical value.
pub struct BrushView<X, C, W> {
    pub color: C,
    pub width: W,
    /// The stroke being drawn, if the button is held.
    pub current_stroke: Option<StrokeView<X, C, W>>,
}

/// The view of an optional stroke.
pub open spec fn opt_stroke_view<X, C, W>(s: Option<Stroke<X, C, W>>) -> Option<StrokeView<X, C, W>> {
    match s {
        Some(s) => Some(s@),
        None => None,
    }
}

impl<X, C, W> BrushView<X, C, W> {
    /// After a press at `(x, y)`: a new stroke of one point, in the current
    /// colour and width, replaces any stroke in progress.
    pub open spec fn pressed(self, x: X, y: X) -> Self {
        BrushView {
            current_stroke: Some(StrokeView { points: seq![(x, y)], color: self.color, width: self.width }),
            ..self
        }
    }

    /// After a motion to `(x, y)`: the stroke in progress, if any, gets the point.
    pub open spec fn moved(self, x: X, y: X) -> Self {
        match self.current_stroke {
            Some(s) => BrushView {
                current_stroke: Some(StrokeView { points: s.points.push((x, y)), ..s }),
                ..self
            },
            None => self,
        }
    }

    /// After a series of motions through `path`, in order.
    pub open spec fn moved_along(self, path: Seq<(X, X)>) -> Self
        decreases path.len(),
    {
        if path.len() == 0 {
            self
        } else {
            self.moved_along(path.drop_last()).moved(path.last().0, path.last().1)
        }
    }

    /// After a release: no stroke is in progress.
    pub open spec fn released(self) -> Self {
        BrushView { current_stroke: None, ..self }
    }

    /// What a release hands back: the stroke in progress if it has at least
    /// two points, else nothing (a click without a drag draws nothing).
    pub open spec fn release_result(self) -> Option<StrokeView<X, C, W>> {
        match self.current_stroke {
            Some(s) => if s.points.len() >= 2 { Some(s) } else { None },
            None => None,
        }
    }

    /// After the colour for new strokes is set.
    pub open spec fn recolored(self, color: C) -> Self {
        BrushView { color, ..self }
    }

    /// After the width for new strokes is set.
    pub open spec fn resized(self, width: W) -> Self {
        BrushView { width, ..self }
    }
}

/// State of the brush tool.
pub struct BrushTool<X, C, W> {
    pub color: C,
    pub width: W,
    pub current_stroke: Option<Stroke<X, C, W>>,
}

impl<X, C, W> View for BrushTool<X, C, W> {
    type V = BrushView<X, C, W>;

    open spec fn view(&self) -> BrushView<X, C, W> {
        BrushView {
            color: self.color,
            width: self.width,
            current_stroke: opt_stroke_view(self.current_stroke),
        }
    }
}

impl<X, C: Copy, W: Copy> BrushTool<X, C, W> {
    /// A brush with the given colour and width (the saved settings) and no
    /// stroke in progress.
    pub fn new(color: C, width: W) -> (b: Self)
        ensures
            b@ == (BrushView::<X, C, W> { color, width, current_stroke: None }),
    {
        BrushTool { color, width, current_stroke: None }
    }

    pub fn color(&self) -> (c: C)
        ensures
            c == self@.color,
    {
        self.color
    }

    /// Sets the colour of strokes started from now on.
    pub fn set_color(&mut self, color: C)
        ensures
            final(self)@ == old(self)@.recolored(color),
    {
        self.color = color;
    }

    pub fn width(&self) -> (w: W)
        ensures
            w == self@.width,
    {
        self.width
    }

    /// Sets the width of strokes started from now on.
    pub fn set_width(&mut self, width: W)
        ensures
            final(self)@ == old(self)@.resized(width),
    {
        self.width = width;
    }

    /// Button pressed at `(x, y)`: starts a stroke there.
    pub fn press(&mut self, x: X, y: X)
        ensures
            final(self)@ == old(self)@.pressed(x, y),
    {
        let mut stroke = Stroke::new(self.color, self.width);
        stroke.add_point(x, y);
        self.current_stroke = Some(stroke);
    }

    /// Pointer moved to `(x, y)`: extends the stroke in progress, if any.
    pub fn motion(&mut self, x: X, y: X)
        ensures
            final(self)@ == old(self)@.moved(x, y),
    {
        match self.current_stroke.take() {
            Some(mut stroke) => {
                stroke.add_point(x, y);
                self.current_stroke = Some(stroke);
            },
            None => {},
        }
    }

    /// Button released: ends the stroke in progress and hands it back if it
    /// has at least two points.
    pub fn release(&mut self) -> (r: Option<Stroke<X, C, W>>)
        ensures
            final(self)@ == old(self)@.released(),
            opt_stroke_view(r) == old(self)@.release_result(),
    {
        match self.current_stroke.take() {
            Some(stroke) => {
                if stroke.points.len() >= 2 {
                    Some(stroke)
                } else {
                    None
                }
            },
            None => None,
        }
    }

    /// The stroke in progress, for drawing a preview.
    pub fn current_stroke(&self) -> (r: Option<&Stroke<X, C, W>>)
        ensures
            match r {
                Some(s) => self.current_stroke == Some(*s),
                None => self.current_stroke is None,
            },
    {
        self.current_stroke.as_ref()
    }
}

/// A click without a drag draws nothing: a release right after a press hands
/// back no stroke.
pub proof fn lemma_click_draws_nothing<X, C, W>(b: BrushView<X, C, W>, x: X, y: X)
    ensures
        b.pressed(x, y).release_result() is None,
{
}

/// A press followed by motions through `path` holds a stroke of the press
/// point followed by the path, in the colour and width set at the press.
pub proof fn lemma_stroke_follows_pointer<X, C, W>(b: BrushView<X, C, W>, x: X, y: X, path: Seq<(X, X)>)
    ensures
        b.pressed(x, y).moved_along(path).current_stroke == Some(
            StrokeView { points: seq![(x, y)] + path, color: b.color, width: b.width },
        ),
        b.pressed(x, y).moved_along(path).color == b.color,
        b.pressed(x, y).moved_along(path).width == b.width,
    decreases path.len(),
{
    if path.len() == 0 {
        assert(seq![(x, y)] + path =~= seq![(x, y)]);
    } else {
        lemma_stroke_follows_pointer(b, x, y, path.drop_last());
        assert((seq![(x, y)] + path.drop_last()).push(path.last()) =~= seq![(x, y)] + path);
    }
}

/// A press, motions through `path` and a release hand back the stroke of all
/// those points exactly when there was at least one motion; afterwards no
/// stroke is in progress.
pub proof fn lemma_drag_yields_stroke<X, C, W>(b: BrushView<X, C, W>, x: X, y: X, path: Seq<(X, X)>)
    ensures
        b.pressed(x, y).moved_along(path).release_result() == (if path.len() >= 1 {
            Some(StrokeView { points: seq![(x, y)] + path, color: b.color, width: b.width })
        } else {
            None::<StrokeView<X, C, W>>
        }),
        b.pressed(x, y).moved_along(path).released().current_stroke is None,
{
    lemma_stroke_follows_pointer(b, x, y, path);
}

/// Without a stroke in progress, motions change nothing.
pub proof fn lemma_motion_when_idle<X, C, W>(b: BrushView<X, C, W>, path: Seq<(X, X)>)
    requires
        b.current_stroke is None,
    ensures
        b.moved_along(path) == b,
    decreases path.len(),
{
    if path.len() > 0 {
        lemma_motion_when_idle(b, path.drop_last());
    }
}

/// Changing the colour or the width commutes with motions.
proof fn lemma_settings_commute_with_motions<X, C, W>(b: BrushView<X, C, W>, color: C, width: W, path: Seq<(X, X)>)
    ensures
        b.recolored(color).moved_along(path) == b.moved_along(path).recolored(color),
        b.resized(width).moved_along(path) == b.moved_along(path).resized(width),
    decreases path.len(),
{
    if path.len() > 0 {
        lemma_settings_commute_with_motions(b, color, width, path.drop_last());
    }
}

/// Changing colour or width while drawing does not touch the stroke in
/// progress: the stroke handed back keeps the settings it was started with.
pub proof fn lemma_settings_spare_current_stroke<X, C, W>(
    b: BrushView<X, C, W>,
    x: X,
    y: X,
    color: C,
    width: W,
    path: Seq<(X, X)>,
)
    ensures
        b.pressed(x, y).recolored(color).moved_along(path).release_result()
            == b.pressed(x, y).moved_along(path).release_result(),
        b.pressed(x, y).resized(width).moved_along(path).release_result()
            == b.pressed(x, y).moved_along(path).release_result(),
{
    lemma_settings_commute_with_motions(b.pressed(x, y), color, width, path);
}

/// A press starts a one-point stroke in the current settings without
/// changing them; a release always ends the stroke in progress, keeps the
/// settings, and hands back the stroke in progress exactly when it has two
/// points or more.
pub proof fn lemma_press_release_effect<X, C, W>(b: BrushView<X, C, W>, x: X, y: X)
    ensures
        b.pressed(x, y).color == b.color,
        b.pressed(x, y).width == b.width,
        b.pressed(x, y).current_stroke == Some(StrokeView { points: seq![(x, y)], color: b.color, width: b.width }),
        b.released().current_stroke is None,
        b.released().color == b.color,
        b.released().width == b.width,
        b.release_result() is Some <==> (b.current_stroke matches Some(s) && s.points.len() >= 2),
        b.release_result() is Some ==> b.release_result() == b.current_stroke,
{
}

} // verus!
