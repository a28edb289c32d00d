//! The undo/redo history of finished annotations.
use vstd::prelude::*;

verus! {

/// What a [`History`] holds, as mathematical sequences.
pub struct HistoryView<T> {
    /// Annotations that are shown, oldest first.
    pub annotations: Seq<T>,
    /// Annotations that were undone; the last one is the next to come back.
    pub redo_stack: Seq<T>,
}

impl<T> HistoryView<T> {
    /// The history after a new annotation is finished: it is shown, and
    /// nothing can be redone any more.
    pub open spec fn committed(self, item: T) -> HistoryView<T> {
        HistoryView { annotations: self.annotations.push(item), redo_stack: Seq::empty() }
    }

    /// The history after an undo: the newest annotation moves onto the redo
    /// stack; with no annotation, nothing changes.
    pub open spec fn undone(self) -> HistoryView<T> {
        if self.annotations.len() == 0 {
            self
        } else {
            HistoryView {
                annotations: self.annotations.drop_last(),
                redo_stack: self.redo_stack.push(self.annotations.last()),
            }
        }
    }

    /// The history after a redo: the annotation undone last is shown again;
    /// with nothing to redo, nothing changes.
    pub open spec fn redone(self) -> HistoryView<T> {
        if self.redo_stack.len() == 0 {
            self
        } else {
            HistoryView {
                annotations: self.annotations.push(self.redo_stack.last()),
                redo_stack: self.redo_stack.drop_last(),
            }
        }
    }

    /// Every annotation that undo and redo can reach, in the order in which
    /// redo brings them back after the shown ones.
    pub open spec fn timeline(self) -> Seq<T> {
        self.annotations + self.redo_stack.reverse()
    }

    /// Every annotation, shown or undone, has the property `p`.
    pub open spec fn all(self, p: spec_fn(T) -> bool) -> bool {
        &&& forall|i: int| 0 <= i < self.annotations.len() ==> #[trigger] p(self.annotations[i])
        &&& forall|i: int| 0 <= i < self.redo_stack.len() ==> #[trigger] p(self.redo_stack[i])
    }

    /// The same history with every annotation replaced by its image under `f`.
    pub open spec fn map<U>(self, f: spec_fn(T) -> U) -> HistoryView<U> {
        HistoryView {
            annotations: self.annotations.map_values(f),
            redo_stack: self.redo_stack.map_values(f),
        }
    }
}

/// Finished annotations and the ones that were undone.
pub struct History<T> {
    pub annotations: Vec<T>,
    pub redo_stack: Vec<T>,
}

impl<T> View for History<T> {
    type V = HistoryView<T>;

    open spec fn view(&self) -> HistoryView<T> {
        HistoryView { annotations: self.annotations@, redo_stack: self.redo_stack@ }
    }
}

impl<T> History<T> {
    /// An empty history.
    pub fn new() -> (h: Self)
        ensures
            h@.annotations == Seq::<T>::empty(),
            h@.redo_stack == Seq::<T>::empty(),
    {
        History { annotations: Vec::new(), redo_stack: Vec::new() }
    }

    /// Records a finished annotation; a new action drops what could be redone.
    pub fn commit(&mut self, item: T)
        ensures
            final(self)@ == old(self)@.committed(item),
    {
        self.redo_stack.clear();
        self.annotations.push(item);
    }

    /// Moves the newest annotation onto the redo stack, if there is one.
    pub fn undo(&mut self)
        ensures
            final(self)@ == old(self)@.undone(),
    {
        if let Some(item) = self.annotations.pop() {
            self.redo_stack.push(item);
        }
    }

    /// Brings back the annotation undone last, if there is one.
    pub fn redo(&mut self)
        ensures
            final(self)@ == old(self)@.redone(),
    {
        if let Some(item) = self.redo_stack.pop() {
            self.annotations.push(item);
        }
    }
}

/// Undoing right after finishing an annotation takes exactly that annotation
/// back: the shown annotations are those from before, and only it can be redone.
pub proof fn lemma_undo_after_commit<T>(h: HistoryView<T>, item: T)
    ensures
        h.committed(item).undone() == (HistoryView { annotations: h.annotations, redo_stack: seq![item] }),
{
    assert(h.annotations.push(item).drop_last() =~= h.annotations);
    assert(Seq::<T>::empty().push(item) =~= seq![item]);
}

/// A redo right after an undo that moved something restores the history.
pub proof fn lemma_redo_after_undo<T>(h: HistoryView<T>)
    requires
        h.annotations.len() > 0,
    ensures
        h.undone().redone() == h,
{
    assert(h.annotations.drop_last().push(h.annotations.last()) =~= h.annotations);
    assert(h.redo_stack.push(h.annotations.last()).drop_last() =~= h.redo_stack);
}

/// An undo right after a redo that moved something restores the history.
pub proof fn lemma_undo_after_redo<T>(h: HistoryView<T>)
    requires
        h.redo_stack.len() > 0,
    ensures
        h.redone().undone() == h,
{
    assert(h.annotations.push(h.redo_stack.last()).drop_last() =~= h.annotations);
    assert(h.redo_stack.drop_last().push(h.redo_stack.last()) =~= h.redo_stack);
}

/// Undo and redo never lose or invent an annotation, nor change their order:
/// they only move the boundary between shown and undone ones.
pub proof fn lemma_undo_redo_keep_timeline<T>(h: HistoryView<T>)
    ensures
        h.undone().timeline() == h.timeline(),
        h.redone().timeline() == h.timeline(),
{
    if h.annotations.len() > 0 {
        let a = h.annotations;
        let r = h.redo_stack;
        let x = a.last();
        assert(r.push(x).reverse() =~= seq![x] + r.reverse());
        assert(a.drop_last() + (seq![x] + r.reverse()) =~= a + r.reverse());
    }
    if h.redo_stack.len() > 0 {
        let a = h.annotations;
        let r = h.redo_stack;
        let x = r.last();
        assert(r.reverse() =~= seq![x] + r.drop_last().reverse());
        assert(a.push(x) + r.drop_last().reverse() =~= a + r.reverse());
    }
}

/// Committing does not depend on what the annotations are: it commutes with
/// replacing each annotation by an image of it.
pub proof fn lemma_map_committed<T, U>(h: HistoryView<T>, f: spec_fn(T) -> U, item: T)
    ensures
        h.committed(item).map(f) == h.map(f).committed(f(item)),
{
    assert(h.annotations.push(item).map_values(f) =~= h.annotations.map_values(f).push(f(item)));
    assert(Seq::<T>::empty().map_values(f) =~= Seq::<U>::empty());
}

/// Undoing and redoing do not depend on what the annotations are: they
/// commute with replacing each annotation by an image of it.
pub proof fn lemma_map_undone_redone<T, U>(h: HistoryView<T>, f: spec_fn(T) -> U)
    ensures
        h.undone().map(f) == h.map(f).undone(),
        h.redone().map(f) == h.map(f).redone(),
{
    if h.annotations.len() > 0 {
        assert(h.annotations.drop_last().map_values(f) =~= h.annotations.map_values(f).drop_last());
        assert(h.redo_stack.push(h.annotations.last()).map_values(f)
            =~= h.redo_stack.map_values(f).push(f(h.annotations.last())));
    }
    if h.redo_stack.len() > 0 {
        assert(h.redo_stack.drop_last().map_values(f) =~= h.redo_stack.map_values(f).drop_last());
        assert(h.annotations.push(h.redo_stack.last()).map_values(f)
            =~= h.annotations.map_values(f).push(f(h.redo_stack.last())));
    }
}

/// Undo and redo keep any property that every annotation has, and so does
/// a commit of an annotation that has it.
pub proof fn lemma_ops_keep_property<T>(h: HistoryView<T>, p: spec_fn(T) -> bool, item: T)
    requires
        h.all(p),
    ensures
        h.undone().all(p),
        h.redone().all(p),
        p(item) ==> h.committed(item).all(p),
{
    if h.annotations.len() > 0 {
        let u = h.undone();
        assert forall|i: int| 0 <= i < u.annotations.len() implies #[trigger] p(u.annotations[i]) by {
            assert(u.annotations[i] == h.annotations[i]);
        }
        assert forall|i: int| 0 <= i < u.redo_stack.len() implies #[trigger] p(u.redo_stack[i]) by {
            if i < h.redo_stack.len() {
                assert(u.redo_stack[i] == h.redo_stack[i]);
            } else {
                assert(u.redo_stack[i] == h.annotations[h.annotations.len() - 1]);
            }
        }
    }
    if h.redo_stack.len() > 0 {
        let r = h.redone();
        assert forall|i: int| 0 <= i < r.annotations.len() implies #[trigger] p(r.annotations[i]) by {
            if i < h.annotations.len() {
                assert(r.annotations[i] == h.annotations[i]);
            } else {
                assert(r.annotations[i] == h.redo_stack[h.redo_stack.len() - 1]);
            }
        }
        assert forall|i: int| 0 <= i < r.redo_stack.len() implies #[trigger] p(r.redo_stack[i]) by {
            assert(r.redo_stack[i] == h.redo_stack[i]);
        }
    }
    if p(item) {
        let c = h.committed(item);
        assert forall|i: int| 0 <= i < c.annotations.len() implies #[trigger] p(c.annotations[i]) by {
            if i < h.annotations.len() {
                assert(c.annotations[i] == h.annotations[i]);
            }
        }
    }
}

/// Undo takes back exactly the newest shown annotation and puts it on top
/// of the redo stack, leaving every other annotation where it was; with
/// nothing shown it changes nothing. It never shows more, and never leaves
/// less to redo.
pub proof fn lemma_undo_moves_newest<T>(h: HistoryView<T>)
    ensures
        h.annotations.len() == 0 ==> h.undone() == h,
        h.annotations.len() > 0 ==> h.undone().annotations.push(h.annotations.last()) == h.annotations,
        h.annotations.len() > 0 ==> h.undone().redo_stack == h.redo_stack.push(h.annotations.last()),
        h.undone().annotations.len() <= h.annotations.len(),
        h.undone().redo_stack.len() >= h.redo_stack.len(),
        h.undone().annotations.len() + h.undone().redo_stack.len() == h.annotations.len() + h.redo_stack.len(),
{
    if h.annotations.len() > 0 {
        assert(h.annotations.drop_last().push(h.annotations.last()) =~= h.annotations);
    }
}

/// Redo shows again exactly the annotation on top of the redo stack,
/// leaving every other annotation where it was; with nothing to redo it
/// changes nothing. It never shows less, and never leaves more to redo.
pub proof fn lemma_redo_moves_top<T>(h: HistoryView<T>)
    ensures
        h.redo_stack.len() == 0 ==> h.redone() == h,
        h.redo_stack.len() > 0 ==> h.redone().annotations == h.annotations.push(h.redo_stack.last()),
        h.redo_stack.len() > 0 ==> h.redone().redo_stack.push(h.redo_stack.last()) == h.redo_stack,
        h.redone().annotations.len() >= h.annotations.len(),
        h.redone().redo_stack.len() <= h.redo_stack.len(),
        h.redone().annotations.len() + h.redone().redo_stack.len() == h.annotations.len() + h.redo_stack.len(),
{
    if h.redo_stack.len() > 0 {
        assert(h.redo_stack.drop_last().push(h.redo_stack.last()) =~= h.redo_stack);
    }
}

/// A commit shows the new annotation last, after all that were shown, and
/// leaves nothing to redo.
pub proof fn lemma_commit_appends<T>(h: HistoryView<T>, item: T)
    ensures
        h.committed(item).annotations.len() == h.annotations.len() + 1,
        h.committed(item).annotations.last() == item,
        h.committed(item).annotations.drop_last() == h.annotations,
        h.committed(item).redo_stack.len() == 0,
{
    assert(h.annotations.push(item).drop_last() =~= h.annotations);
}

} // verus!
