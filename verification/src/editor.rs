//! The decisions of the image editor: what a press, a motion, a release, an
//! undo, a redo or a key press does to the drawing. The window, the canvas
//! and the conversion of pointer positions to image coordinates stay with
//! the caller, which hands the resulting events to an [`EditorState`].
use vstd::prelude::*;
use crate::history::{History, HistoryView, lemma_map_committed, lemma_map_undone_redone, lemma_ops_keep_property};
use crate::tools::{Stroke, StrokeView};
use crate::tools::brush::{BrushTool, BrushView};

verus! {

/// Key value of the `z` key, as the windowing toolkit reports it.
pub const KEY_LOWER_Z: u32 = 0x7a;

/// Key value of the `Z` key, as the windowing toolkit reports it.
pub const KEY_UPPER_Z: u32 = 0x5a;

/// An editor command that a key combination stands for.
#[derive(PartialEq, Eq, Structural, Debug, Clone, Copy)]
pub enum Shortcut {
    Undo,
    Redo,
}

/// Ctrl+Z undoes; Ctrl+Shift+Z (reported as `z` with Shift, or as `Z`)
/// redoes; every other key is left to the toolkit.
pub open spec fn key_shortcut(ctrl: bool, shift: bool, keyval: u32) -> Option<Shortcut> {
    if ctrl && keyval == KEY_LOWER_Z && !shift {
        Some(Shortcut::Undo)
    } else if ctrl && (keyval == KEY_UPPER_Z || (keyval == KEY_LOWER_Z && shift)) {
        Some(Shortcut::Redo)
    } else {
        None
    }
}

/// The editor command for a key press with the given modifiers.
pub fn shortcut_for_key(ctrl: bool, shift: bool, keyval: u32) -> (r: Option<Shortcut>)
    ensures
        r == key_shortcut(ctrl, shift, keyval),
{
    if ctrl && keyval == KEY_LOWER_Z && !shift {
        Some(Shortcut::Undo)
    } else if ctrl && (keyval == KEY_UPPER_Z || (keyval == KEY_LOWER_Z && shift)) {
        Some(Shortcut::Redo)
    } else {
        None
    }
}

/// The editor's drawing state as a mathematical value.
pub struct EditorView<X, C, W> {
    pub history: HistoryView<StrokeView<X, C, W>>,
    pub brush: BrushView<X, C, W>,
}

impl<X, C, W> EditorView<X, C, W> {
    /// After the button goes down at `(x, y)`: the brush starts a stroke.
    pub open spec fn pressed(self, x: X, y: X) -> Self {
        EditorView { brush: self.brush.pressed(x, y), ..self }
    }

    /// After the pointer moves to `(x, y)`: the stroke in progress follows.
    pub open spec fn moved(self, x: X, y: X) -> Self {
        EditorView { brush: self.brush.moved(x, y), ..self }
    }

    /// After the button is released: a stroke of two points or more becomes
    /// an annotation (and nothing can be redone any more); a click leaves the
    /// annotations as they were.
    pub open spec fn released(self) -> Self {
        EditorView {
            history: match self.brush.release_result() {
                Some(s) => self.history.committed(s),
                None => self.history,
            },
            brush: self.brush.released(),
        }
    }

    /// After an undo (button or shortcut).
    pub open spec fn undone(self) -> Self {
        EditorView { history: self.history.undone(), ..self }
    }

    /// After a redo (button or shortcut).
    pub open spec fn redone(self) -> Self {
        EditorView { history: self.history.redone(), ..self }
    }

    /// After a key press: the command it stands for, if any.
    pub open spec fn key_pressed(self, ctrl: bool, shift: bool, keyval: u32) -> Self {
        match key_shortcut(ctrl, shift, keyval) {
            Some(Shortcut::Undo) => self.undone(),
            Some(Shortcut::Redo) => self.redone(),
            None => self,
        }
    }

    /// After a colour button is chosen.
    pub open spec fn recolored(self, color: C) -> Self {
        EditorView { brush: self.brush.recolored(color), ..self }
    }

    /// After a width button is chosen.
    pub open spec fn resized(self, width: W) -> Self {
        EditorView { brush: self.brush.resized(width), ..self }
    }
}

/// The view of a stroke, as a function.
pub open spec fn stroke_view_fn<X, C, W>() -> spec_fn(Stroke<X, C, W>) -> StrokeView<X, C, W> {
    |s: Stroke<X, C, W>| s@
}

/// Finished strokes, undone strokes and the brush of an open image.
pub struct EditorState<X, C, W> {
    pub history: History<Stroke<X, C, W>>,
    pub brush: BrushTool<X, C, W>,
}

impl<X, C, W> View for EditorState<X, C, W> {
    type V = EditorView<X, C, W>;

    open spec fn view(&self) -> EditorView<X, C, W> {
        EditorView { history: self.history@.map(stroke_view_fn()), brush: self.brush@ }
    }
}

impl<X, C: Copy, W: Copy> EditorState<X, C, W> {
    /// An editor with no annotation, and a brush with the given settings.
    pub fn new(color: C, width: W) -> (e: Self)
        ensures
            e@.history.annotations == Seq::<StrokeView<X, C, W>>::empty(),
            e@.history.redo_stack == Seq::<StrokeView<X, C, W>>::empty(),
            e@.brush == (BrushView::<X, C, W> { color, width, current_stroke: None }),
    {
        let history = History::new();
        let e = EditorState { history, brush: BrushTool::new(color, width) };
        assert(e@.history.annotations =~= Seq::<StrokeView<X, C, W>>::empty());
        assert(e@.history.redo_stack =~= Seq::<StrokeView<X, C, W>>::empty());
        e
    }

    /// Button pressed at image coordinates `(x, y)`.
    pub fn press(&mut self, x: X, y: X)
        ensures
            final(self)@ == old(self)@.pressed(x, y),
    {
        self.brush.press(x, y);
    }

    /// Pointer moved to image coordinates `(x, y)`.
    pub fn motion(&mut self, x: X, y: X)
        ensures
            final(self)@ == old(self)@.moved(x, y),
    {
        self.brush.motion(x, y);
    }

    /// Button released; tells whether a new annotation was made.
    pub fn release(&mut self) -> (made: bool)
        ensures
            final(self)@ == old(self)@.released(),
            made == old(self)@.brush.release_result() is Some,
    {
        match self.brush.release() {
            Some(stroke) => {
                proof {
                    lemma_map_committed(self.history@, stroke_view_fn(), stroke);
                }
                self.history.commit(stroke);
                true
            },
            None => false,
        }
    }

    /// Takes the newest annotation back, if there is one.
    pub fn undo(&mut self)
        ensures
            final(self)@ == old(self)@.undone(),
    {
        proof {
            lemma_map_undone_redone(self.history@, stroke_view_fn());
        }
        self.history.undo();
    }

    /// Brings back the annotation undone last, if there is one.
    pub fn redo(&mut self)
        ensures
            final(self)@ == old(self)@.redone(),
    {
        proof {
            lemma_map_undone_redone(self.history@, stroke_view_fn());
        }
        self.history.redo();
    }

    /// Handles a key press; tells whether the key was used (and must not be
    /// handed on).
    pub fn key_pressed(&mut self, ctrl: bool, shift: bool, keyval: u32) -> (used: bool)
        ensures
            final(self)@ == old(self)@.key_pressed(ctrl, shift, keyval),
            used == key_shortcut(ctrl, shift, keyval) is Some,
    {
        match shortcut_for_key(ctrl, shift, keyval) {
            Some(Shortcut::Undo) => {
                self.undo();
                true
            },
            Some(Shortcut::Redo) => {
                self.redo();
                true
            },
            None => false,
        }
    }

    /// Sets the colour of strokes started from now on.
    pub fn set_color(&mut self, color: C)
        ensures
            final(self)@ == old(self)@.recolored(color),
    {
        self.brush.set_color(color);
    }

    /// Sets the width of strokes started from now on.
    pub fn set_width(&mut self, width: W)
        ensures
            final(self)@ == old(self)@.resized(width),
    {
        self.brush.set_width(width);
    }

    /// The finished annotations, oldest first, for drawing.
    pub fn annotations(&self) -> (a: &Vec<Stroke<X, C, W>>)
        ensures
            a@ == self.history.annotations@,
    {
        &self.history.annotations
    }

    /// The stroke in progress, for drawing a preview.
    pub fn current_stroke(&self) -> (r: Option<&Stroke<X, C, W>>)
        ensures
            match r {
                Some(s) => self.brush.current_stroke == Some(*s),
                None => self.brush.current_stroke is None,
            },
    {
        self.brush.current_stroke()
    }
}

/// Ctrl+Z followed by Ctrl+Shift+Z gives back the drawing as it was, when
/// there was something to undo.
pub proof fn lemma_undo_key_then_redo_key<X, C, W>(e: EditorView<X, C, W>)
    requires
        e.history.annotations.len() > 0,
    ensures
        e.key_pressed(true, false, KEY_LOWER_Z).key_pressed(true, true, KEY_LOWER_Z) == e,
        e.key_pressed(true, false, KEY_LOWER_Z).key_pressed(true, true, KEY_UPPER_Z) == e,
{
    crate::history::lemma_redo_after_undo(e.history);
}

/// Keys pressed without Ctrl never change the drawing.
pub proof fn lemma_keys_without_ctrl<X, C, W>(e: EditorView<X, C, W>, shift: bool, keyval: u32)
    ensures
        e.key_pressed(false, shift, keyval) == e,
        key_shortcut(false, shift, keyval) is None,
{
}

/// Finishing a stroke after an undo drops what could have been redone.
pub proof fn lemma_new_stroke_clears_redo<X, C, W>(e: EditorView<X, C, W>)
    requires
        e.brush.release_result() is Some,
    ensures
        e.released().history.redo_stack.len() == 0,
        e.released().history.annotations == e.history.annotations.push(e.brush.release_result()->0),
{
}

/// An input that the editor reacts to: pointer events in image
/// coordinates, the undo and redo buttons, key presses, and the colour and
/// width buttons.
pub enum EditorEvent<X, C, W> {
    Press(X, X),
    Motion(X, X),
    Release,
    Undo,
    Redo,
    Key(bool, bool, u32),
    SetColor(C),
    SetWidth(W),
}

impl<X, C, W> EditorView<X, C, W> {
    /// The drawing after one event.
    pub open spec fn step(self, event: EditorEvent<X, C, W>) -> Self {
        match event {
            EditorEvent::Press(x, y) => self.pressed(x, y),
            EditorEvent::Motion(x, y) => self.moved(x, y),
            EditorEvent::Release => self.released(),
            EditorEvent::Undo => self.undone(),
            EditorEvent::Redo => self.redone(),
            EditorEvent::Key(ctrl, shift, keyval) => self.key_pressed(ctrl, shift, keyval),
            EditorEvent::SetColor(color) => self.recolored(color),
            EditorEvent::SetWidth(width) => self.resized(width),
        }
    }

    /// The drawing after a series of events, in order.
    pub open spec fn run(self, events: Seq<EditorEvent<X, C, W>>) -> Self
        decreases events.len(),
    {
        if events.len() == 0 {
            self
        } else {
            self.run(events.drop_last()).step(events.last())
        }
    }

    /// Every stroke that is shown or can be redone has at least two points.
    pub open spec fn strokes_are_drawn(self) -> bool {
        &&& forall|i: int|
            0 <= i < self.history.annotations.len() ==> (#[trigger] self.history.annotations[i]).points.len() >= 2
        &&& forall|i: int|
            0 <= i < self.history.redo_stack.len() ==> (#[trigger] self.history.redo_stack[i]).points.len() >= 2
    }
}

/// The points that the motions among `events` lead through, in order.
pub open spec fn motion_points<X, C, W>(events: Seq<EditorEvent<X, C, W>>) -> Seq<(X, X)>
    decreases events.len(),
{
    if events.len() == 0 {
        Seq::empty()
    } else {
        match events.last() {
            EditorEvent::Motion(x, y) => motion_points(events.drop_last()).push((x, y)),
            _ => motion_points(events.drop_last()),
        }
    }
}

/// No event ends the stroke in progress or starts another one.
pub open spec fn keeps_stroke_open<X, C, W>(events: Seq<EditorEvent<X, C, W>>) -> bool {
    forall|i: int|
        0 <= i < events.len() ==> !(#[trigger] events[i] is Press) && !(events[i] is Release)
}

/// One event keeps every kept or undone stroke at two points or more.
pub proof fn lemma_step_keeps_strokes_drawn<X, C, W>(e: EditorView<X, C, W>, event: EditorEvent<X, C, W>)
    requires
        e.strokes_are_drawn(),
    ensures
        e.step(event).strokes_are_drawn(),
{
    let h = e.history;
    let n = e.step(event);
    match event {
        EditorEvent::Release => {
            if let Some(s) = e.brush.release_result() {
                assert forall|i: int| 0 <= i < n.history.annotations.len() implies
                    (#[trigger] n.history.annotations[i]).points.len() >= 2 by {
                    if i < h.annotations.len() {
                        assert(n.history.annotations[i] == h.annotations[i]);
                    }
                }
            }
        },
        _ => {
            if h.annotations.len() > 0 {
                assert forall|i: int| 0 <= i < h.undone().redo_stack.len() implies
                    (#[trigger] h.undone().redo_stack[i]).points.len() >= 2 by {
                    if i < h.redo_stack.len() {
                        assert(h.undone().redo_stack[i] == h.redo_stack[i]);
                    } else {
                        assert(h.undone().redo_stack[i] == h.annotations[h.annotations.len() - 1]);
                    }
                }
                assert forall|i: int| 0 <= i < h.undone().annotations.len() implies
                    (#[trigger] h.undone().annotations[i]).points.len() >= 2 by {
                    assert(h.undone().annotations[i] == h.annotations[i]);
                }
            }
            if h.redo_stack.len() > 0 {
                assert forall|i: int| 0 <= i < h.redone().annotations.len() implies
                    (#[trigger] h.redone().annotations[i]).points.len() >= 2 by {
                    if i < h.annotations.len() {
                        assert(h.redone().annotations[i] == h.annotations[i]);
                    } else {
                        assert(h.redone().annotations[i] == h.redo_stack[h.redo_stack.len() - 1]);
                    }
                }
                assert forall|i: int| 0 <= i < h.redone().redo_stack.len() implies
                    (#[trigger] h.redone().redo_stack[i]).points.len() >= 2 by {
                    assert(h.redone().redo_stack[i] == h.redo_stack[i]);
                }
            }
        },
    }
}

/// Whatever events come, every stroke that is kept or can be redone has at
/// least two points: a click never leaves an annotation behind.
pub proof fn lemma_run_keeps_strokes_drawn<X, C, W>(e: EditorView<X, C, W>, events: Seq<EditorEvent<X, C, W>>)
    requires
        e.strokes_are_drawn(),
    ensures
        e.run(events).strokes_are_drawn(),
    decreases events.len(),
{
    if events.len() > 0 {
        lemma_run_keeps_strokes_drawn(e, events.drop_last());
        lemma_step_keeps_strokes_drawn(e.run(events.drop_last()), events.last());
    }
}

/// From a press at `(x, y)` until the next press or release, whatever else
/// happens (motions, undo, redo, keys, colour and width buttons), the stroke
/// in progress is the press point followed by the motion points, in the
/// colour and width that the brush had at the press.
pub proof fn lemma_stroke_in_progress<X, C, W>(
    e: EditorView<X, C, W>,
    x: X,
    y: X,
    events: Seq<EditorEvent<X, C, W>>,
)
    requires
        keeps_stroke_open(events),
    ensures
        e.pressed(x, y).run(events).brush.current_stroke == Some(
            StrokeView { points: seq![(x, y)] + motion_points(events), color: e.brush.color, width: e.brush.width },
        ),
    decreases events.len(),
{
    if events.len() == 0 {
        assert(seq![(x, y)] + motion_points(events) =~= seq![(x, y)]);
    } else {
        let rest = events.drop_last();
        assert(keeps_stroke_open(rest)) by {
            assert forall|i: int| 0 <= i < rest.len() implies !(#[trigger] rest[i] is Press) && !(rest[i] is Release) by {
                assert(rest[i] == events[i]);
            }
        }
        lemma_stroke_in_progress(e, x, y, rest);
        let last = events.last();
        assert(!(last is Press) && !(last is Release)) by {
            assert(events[events.len() - 1] == last);
        }
        if let EditorEvent::Motion(a, b) = last {
            assert(seq![(x, y)] + motion_points(rest).push((a, b)) =~= (seq![(x, y)] + motion_points(rest)).push((a, b)));
        }
    }
}

/// A stroke becomes an annotation at the release that ends it, exactly when
/// the pointer moved at least once since the press, and then it is the press
/// point followed by the motion points, in the colour and width that the
/// brush had at the press: colour and width clicks during the drag, or
/// after it, never change it.
pub proof fn lemma_release_keeps_press_settings<X, C, W>(
    e: EditorView<X, C, W>,
    x: X,
    y: X,
    events: Seq<EditorEvent<X, C, W>>,
)
    requires
        keeps_stroke_open(events),
    ensures
        ({
            let before = e.pressed(x, y).run(events);
            let stroke = StrokeView { points: seq![(x, y)] + motion_points(events), color: e.brush.color, width: e.brush.width };
            before.released().history == if motion_points(events).len() >= 1 {
                before.history.committed(stroke)
            } else {
                before.history
            }
        }),
{
    lemma_stroke_in_progress(e, x, y, events);
}

/// The stroke `s` has the colour and the width that the brush had at one of
/// the presses among `events`, run from `e0`.
pub open spec fn made_at_a_press<X, C, W>(
    e0: EditorView<X, C, W>,
    events: Seq<EditorEvent<X, C, W>>,
    s: StrokeView<X, C, W>,
) -> bool {
    exists|j: int|
        #![trigger events[j]]
        0 <= j < events.len() && events[j] is Press && s.color == e0.run(events.take(j)).brush.color
            && s.width == e0.run(events.take(j)).brush.width
}

/// After `events`, run from `e0`, every shown, undone or unfinished stroke
/// has the colour and the width of a press among `events`.
pub open spec fn strokes_keep_press_settings<X, C, W>(
    e0: EditorView<X, C, W>,
    events: Seq<EditorEvent<X, C, W>>,
) -> bool {
    let e = e0.run(events);
    &&& e.history.all(|s: StrokeView<X, C, W>| made_at_a_press(e0, events, s))
    &&& (e.brush.current_stroke matches Some(c) ==> made_at_a_press(e0, events, c))
}

proof fn lemma_made_at_a_press_extends<X, C, W>(
    e0: EditorView<X, C, W>,
    events: Seq<EditorEvent<X, C, W>>,
    s: StrokeView<X, C, W>,
)
    requires
        events.len() > 0,
        made_at_a_press(e0, events.drop_last(), s),
    ensures
        made_at_a_press(e0, events, s),
{
    let prev = events.drop_last();
    let j = choose|j: int|
        #![trigger prev[j]]
        0 <= j < prev.len() && prev[j] is Press && s.color == e0.run(prev.take(j)).brush.color
            && s.width == e0.run(prev.take(j)).brush.width;
    assert(prev.take(j) =~= events.take(j));
    assert(prev[j] == events[j]);
}

/// In an editor opened with no annotation and no stroke in progress, after
/// any events, every stroke that is shown, can be redone, or is being drawn
/// has the colour and the width that the brush had at the press that
/// started it: later colour and width choices never change a stroke.
pub proof fn lemma_run_keeps_press_settings<X, C, W>(
    e0: EditorView<X, C, W>,
    events: Seq<EditorEvent<X, C, W>>,
)
    requires
        e0.history.annotations.len() == 0,
        e0.history.redo_stack.len() == 0,
        e0.brush.current_stroke is None,
    ensures
        strokes_keep_press_settings(e0, events),
    decreases events.len(),
{
    if events.len() > 0 {
        let prev = events.drop_last();
        lemma_run_keeps_press_settings(e0, prev);
        let p = e0.run(prev);
        let pn = |s: StrokeView<X, C, W>| made_at_a_press(e0, events, s);
        let pp = |s: StrokeView<X, C, W>| made_at_a_press(e0, prev, s);
        assert(p.history.all(pp));
        assert forall|i: int| 0 <= i < p.history.annotations.len() implies #[trigger] pn(
            p.history.annotations[i],
        ) by {
            assert(pp(p.history.annotations[i]));
            lemma_made_at_a_press_extends(e0, events, p.history.annotations[i]);
        }
        assert forall|i: int| 0 <= i < p.history.redo_stack.len() implies #[trigger] pn(
            p.history.redo_stack[i],
        ) by {
            assert(pp(p.history.redo_stack[i]));
            lemma_made_at_a_press_extends(e0, events, p.history.redo_stack[i]);
        }
        assert(p.history.all(pn));
        if let Some(c) = p.brush.current_stroke {
            lemma_made_at_a_press_extends(e0, events, c);
        }
        let last = events.last();
        let e = e0.run(events);
        assert(e == p.step(last));
        match last {
            EditorEvent::Press(x, y) => {
                let k = events.len() - 1;
                assert(events.take(k) =~= prev);
                assert(events[k] == last);
                let c = e.brush.current_stroke->0;
                assert(c.color == e0.run(events.take(k)).brush.color);
                assert(made_at_a_press(e0, events, c));
            },
            EditorEvent::Release => {
                match p.brush.current_stroke {
                    Some(c) => lemma_ops_keep_property(p.history, pn, c),
                    None => {},
                }
            },
            _ => {
                lemma_ops_keep_property(p.history, pn, arbitrary());
            },
        }
        assert(e.history.all(pn));
    }
}

/// In an editor opened with no annotation and no stroke in progress, after
/// any series of pointer, key and button events, every stroke that is shown
/// or can be redone has at least two points and the colour and width that
/// the brush had at the press that started it.
pub proof fn lemma_editor_strokes<X, C, W>(e0: EditorView<X, C, W>, events: Seq<EditorEvent<X, C, W>>)
    requires
        e0.history.annotations.len() == 0,
        e0.history.redo_stack.len() == 0,
        e0.brush.current_stroke is None,
    ensures
        e0.run(events).strokes_are_drawn(),
        strokes_keep_press_settings(e0, events),
{
    lemma_run_keeps_strokes_drawn(e0, events);
    lemma_run_keeps_press_settings(e0, events);
}

/// Only Ctrl with `z` or `Z` is a shortcut, and every other key is left to
/// the toolkit: Ctrl+Z (without Shift) undoes, Ctrl+Shift+Z (reported as
/// `z` with Shift or as `Z`) redoes.
pub proof fn lemma_shortcut_keys(ctrl: bool, shift: bool, keyval: u32)
    ensures
        key_shortcut(ctrl, shift, keyval) is Some ==> ctrl && (keyval == KEY_LOWER_Z || keyval == KEY_UPPER_Z),
        key_shortcut(ctrl, shift, keyval) == Some(Shortcut::Undo) ==> !shift && keyval == KEY_LOWER_Z,
        key_shortcut(ctrl, shift, keyval) == Some(Shortcut::Redo) ==> keyval == KEY_UPPER_Z || shift,
        ctrl && !shift && keyval == KEY_LOWER_Z ==> key_shortcut(ctrl, shift, keyval) == Some(Shortcut::Undo),
        ctrl && shift && keyval == KEY_LOWER_Z ==> key_shortcut(ctrl, shift, keyval) == Some(Shortcut::Redo),
        ctrl && keyval == KEY_UPPER_Z ==> key_shortcut(ctrl, shift, keyval) == Some(Shortcut::Redo),
        KEY_LOWER_Z != KEY_UPPER_Z,
{
}

/// A key press leaves the brush and the stroke in progress alone; a key
/// that is no shortcut changes nothing, Ctrl+Z acts as undo and
/// Ctrl+Shift+Z as redo.
pub proof fn lemma_key_press_effect<X, C, W>(e: EditorView<X, C, W>, ctrl: bool, shift: bool, keyval: u32)
    ensures
        e.key_pressed(ctrl, shift, keyval).brush == e.brush,
        !(ctrl && (keyval == KEY_LOWER_Z || keyval == KEY_UPPER_Z)) ==> e.key_pressed(ctrl, shift, keyval) == e,
        ctrl && !shift && keyval == KEY_LOWER_Z ==> e.key_pressed(ctrl, shift, keyval).history
            == e.history.undone(),
        ctrl && (keyval == KEY_UPPER_Z || (shift && keyval == KEY_LOWER_Z)) ==> e.key_pressed(
            ctrl,
            shift,
            keyval,
        ).history == e.history.redone(),
{
}

/// A press starts a one-point stroke at the press point in the current
/// colour and width, and changes nothing else: not the brush settings, not
/// the annotations.
pub proof fn lemma_press_effect<X, C, W>(e: EditorView<X, C, W>, x: X, y: X)
    ensures
        e.pressed(x, y).brush.color == e.brush.color,
        e.pressed(x, y).brush.width == e.brush.width,
        e.pressed(x, y).history == e.history,
        e.pressed(x, y).brush.current_stroke == Some(
            StrokeView { points: seq![(x, y)], color: e.brush.color, width: e.brush.width },
        ),
{
}

/// A release always ends the stroke in progress, whether it becomes an
/// annotation or not, and leaves the brush settings as they were; a motion
/// with no stroke in progress then changes nothing.
pub proof fn lemma_release_effect<X, C, W>(e: EditorView<X, C, W>, x: X, y: X)
    ensures
        e.released().brush.current_stroke is None,
        e.released().brush.color == e.brush.color,
        e.released().brush.width == e.brush.width,
        e.released().moved(x, y) == e.released(),
        e.brush.release_result() is None ==> e.released().history == e.history,
{
}

/// A motion only extends the stroke in progress, by the new point at its
/// end; the brush settings and the annotations stay.
pub proof fn lemma_motion_effect<X, C, W>(e: EditorView<X, C, W>, x: X, y: X)
    ensures
        e.moved(x, y).history == e.history,
        e.moved(x, y).brush.color == e.brush.color,
        e.moved(x, y).brush.width == e.brush.width,
        e.brush.current_stroke is None ==> e.moved(x, y) == e,
        e.brush.current_stroke matches Some(s) ==> e.moved(x, y).brush.current_stroke == Some(
            StrokeView { points: s.points.push((x, y)), ..s },
        ),
{
}

/// The colour chosen last among `events` (by a colour button), or
/// `initial` if none was chosen.
pub open spec fn chosen_color<X, C, W>(initial: C, events: Seq<EditorEvent<X, C, W>>) -> C
    decreases events.len(),
{
    if events.len() == 0 {
        initial
    } else {
        match events.last() {
            EditorEvent::SetColor(c) => c,
            _ => chosen_color(initial, events.drop_last()),
        }
    }
}

/// The width chosen last among `events` (by a width button), or `initial`
/// if none was chosen.
pub open spec fn chosen_width<X, C, W>(initial: W, events: Seq<EditorEvent<X, C, W>>) -> W
    decreases events.len(),
{
    if events.len() == 0 {
        initial
    } else {
        match events.last() {
            EditorEvent::SetWidth(w) => w,
            _ => chosen_width(initial, events.drop_last()),
        }
    }
}

/// After any events, the brush colour and width are the ones chosen last by
/// the buttons (or the ones the editor opened with): presses, motions,
/// releases, undo, redo and keys never change them.
pub proof fn lemma_brush_settings_are_last_chosen<X, C, W>(
    e: EditorView<X, C, W>,
    events: Seq<EditorEvent<X, C, W>>,
)
    ensures
        e.run(events).brush.color == chosen_color(e.brush.color, events),
        e.run(events).brush.width == chosen_width(e.brush.width, events),
    decreases events.len(),
{
    if events.len() > 0 {
        lemma_brush_settings_are_last_chosen(e, events.drop_last());
    }
}

/// Undo and redo change only the annotations: the brush settings and the
/// stroke in progress stay.
pub proof fn lemma_undo_redo_effect<X, C, W>(e: EditorView<X, C, W>)
    ensures
        e.undone().brush == e.brush,
        e.redone().brush == e.brush,
        e.undone().history == e.history.undone(),
        e.redone().history == e.history.redone(),
{
}

/// A colour or width button sets that setting and nothing else: the other
/// setting, the stroke in progress and the annotations stay.
pub proof fn lemma_settings_effect<X, C, W>(e: EditorView<X, C, W>, color: C, width: W)
    ensures
        e.recolored(color).brush.color == color,
        e.recolored(color).brush.width == e.brush.width,
        e.recolored(color).brush.current_stroke == e.brush.current_stroke,
        e.recolored(color).history == e.history,
        e.resized(width).brush.width == width,
        e.resized(width).brush.color == e.brush.color,
        e.resized(width).brush.current_stroke == e.brush.current_stroke,
        e.resized(width).history == e.history,
{
}

} // verus!
