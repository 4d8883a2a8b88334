//! The undo history: states recorded before each change, and states undone.
use vstd::prelude::*;
use crate::format::file_block::File;
use crate::format::pray::{Block, blocks_view, files_view, copy_blocks, copy_files};
use crate::text::to_owned;
use super::file::{FileState, EditorStateView, opt_view, touched};

verus! {

/// A recorded state of the file.
pub struct HistoryItem {
    pub path: Option<String>,
    pub is_modified: bool,
    pub dependencies: Vec<File>,
    pub tags: Vec<Block>,
    pub selected_tag: Option<usize>,
}

impl View for HistoryItem {
    type V = EditorStateView;

    open spec fn view(&self) -> EditorStateView {
        EditorStateView {
            path: opt_view(self.path),
            is_modified: self.is_modified,
            dependencies: files_view(self.dependencies@),
            tags: blocks_view(self.tags@),
            selected_tag: self.selected_tag,
        }
    }
}

/// The states that undo and redo go back to, the last one first.
pub struct HistoryState {
    pub undo_stack: Vec<HistoryItem>,
    pub redo_stack: Vec<HistoryItem>,
}

/// The value of a history.
pub struct HistoryView {
    pub undo: Seq<EditorStateView>,
    pub redo: Seq<EditorStateView>,
}

/// The values of recorded states.
pub open spec fn items_view(v: Seq<HistoryItem>) -> Seq<EditorStateView> {
    Seq::new(v.len(), |i: int| v[i]@)
}

impl View for HistoryState {
    type V = HistoryView;

    open spec fn view(&self) -> HistoryView {
        HistoryView { undo: items_view(self.undo_stack@), redo: items_view(self.redo_stack@) }
    }
}

/// The history after recording the state `s` before a change: `s` can be undone to,
/// and nothing can be redone any more.
pub open spec fn recorded(h: HistoryView, s: EditorStateView) -> HistoryView {
    HistoryView { undo: h.undo.push(s), redo: Seq::empty() }
}

/// Undoing from the state `current`: the last recorded state comes back and `current`
/// can be redone to; with nothing recorded, nothing changes. Gives the history and the
/// state.
pub open spec fn undone(h: HistoryView, current: EditorStateView) -> (HistoryView, EditorStateView) {
    if h.undo.len() == 0 {
        (h, current)
    } else {
        (HistoryView { undo: h.undo.drop_last(), redo: h.redo.push(current) }, h.undo.last())
    }
}

/// Redoing from the state `current`: the last undone state comes back and `current` can
/// be undone to; with nothing undone, nothing changes. Gives the history and the state.
pub open spec fn redone(h: HistoryView, current: EditorStateView) -> (HistoryView, EditorStateView) {
    if h.redo.len() == 0 {
        (h, current)
    } else {
        (HistoryView { undo: h.undo.push(current), redo: h.redo.drop_last() }, h.redo.last())
    }
}

impl HistoryState {
    /// An empty history.
    pub fn new() -> (r: HistoryState)
        ensures
            r@.undo == Seq::<EditorStateView>::empty(),
            r@.redo == Seq::<EditorStateView>::empty(),
    {
        let r = HistoryState { undo_stack: Vec::new(), redo_stack: Vec::new() };
        assert(r@.undo =~= Seq::<EditorStateView>::empty());
        assert(r@.redo =~= Seq::<EditorStateView>::empty());
        r
    }
}

/// Forgets everything recorded.
pub fn reset_history(history: &mut HistoryState)
    ensures
        final(history)@.undo == Seq::<EditorStateView>::empty(),
        final(history)@.redo == Seq::<EditorStateView>::empty(),
{
    history.undo_stack = Vec::new();
    history.redo_stack = Vec::new();
    assert(history@.undo =~= Seq::<EditorStateView>::empty());
    assert(history@.redo =~= Seq::<EditorStateView>::empty());
}

/// A record of the file's state.
pub fn get_current_state(file_state: &FileState) -> (r: HistoryItem)
    ensures
        r@ == file_state@,
{
    let path = match &file_state.path {
        Some(p) => Some(to_owned(p.as_str())),
        None => None,
    };
    HistoryItem {
        path,
        is_modified: file_state.is_modified,
        dependencies: copy_files(&file_state.dependencies),
        tags: copy_blocks(&file_state.tags),
        selected_tag: file_state.selected_tag,
    }
}

/// Puts a recorded state back.
pub fn set_current_state(file_state: &mut FileState, history_item: HistoryItem)
    ensures
        final(file_state)@ == history_item@,
{
    file_state.path = history_item.path;
    file_state.is_modified = history_item.is_modified;
    file_state.dependencies = history_item.dependencies;
    file_state.tags = history_item.tags;
    file_state.selected_tag = history_item.selected_tag;
}

/// Records the file's state before a change.
pub fn add_history_state(history: &mut HistoryState, file_state: &FileState)
    ensures
        final(history)@ == recorded(old(history)@, file_state@),
{
    let current_state = get_current_state(file_state);
    history.undo_stack.push(current_state);
    history.redo_stack = Vec::new();
    assert(history@.undo =~= old(history)@.undo.push(file_state@));
    assert(history@.redo =~= Seq::<EditorStateView>::empty());
}

/// Undoes the last change: the last recorded state comes back, the state it replaces
/// can be redone to, and the file counts as changed.
pub fn undo(file_state: &mut FileState, history: &mut HistoryState)
    ensures
        final(history)@ == undone(old(history)@, old(file_state)@).0,
        final(file_state)@ == touched(undone(old(history)@, old(file_state)@).1),
{
    let history_item = history.undo_stack.pop();
    if let Some(history_item) = history_item {
        let current_state = get_current_state(file_state);
        history.redo_stack.push(current_state);
        set_current_state(file_state, history_item);
        assert(history@.undo =~= old(history)@.undo.drop_last());
        assert(history@.redo =~= old(history)@.redo.push(old(file_state)@));
    } else {
        assert(history@.undo =~= old(history)@.undo);
    }
    file_state.is_modified = true;
}

/// Redoes the last undone change: the last undone state comes back, the state it
/// replaces can be undone to, and the file counts as changed.
pub fn redo(file_state: &mut FileState, history: &mut HistoryState)
    ensures
        final(history)@ == redone(old(history)@, old(file_state)@).0,
        final(file_state)@ == touched(redone(old(history)@, old(file_state)@).1),
{
    let history_item = history.redo_stack.pop();
    if let Some(history_item) = history_item {
        let current_state = get_current_state(file_state);
        history.undo_stack.push(current_state);
        set_current_state(file_state, history_item);
        assert(history@.redo =~= old(history)@.redo.drop_last());
        assert(history@.undo =~= old(history)@.undo.push(old(file_state)@));
    } else {
        assert(history@.redo =~= old(history)@.redo);
    }
    file_state.is_modified = true;
}

/// Undoing right after recording a state gives that state back, whatever was changed
/// in between, and leaves only the changed state to redo.
pub proof fn lemma_undo_after_record(h: HistoryView, s: EditorStateView, changed: EditorStateView)
    ensures
        undone(recorded(h, s), changed) == (HistoryView { undo: h.undo, redo: seq![changed] }, s),
{
    assert(recorded(h, s).undo.drop_last() =~= h.undo);
    assert(Seq::<EditorStateView>::empty().push(changed) =~= seq![changed]);
}

/// Redoing right after an undo gives back the state that the undo replaced, and the
/// history it had, but that the state undone to is recorded as it stood after the undo.
pub proof fn lemma_redo_after_undo(h: HistoryView, current: EditorStateView)
    requires
        h.undo.len() > 0,
    ensures
        ({
            let (h1, s1) = undone(h, current);
            redone(h1, touched(s1)) == (HistoryView { undo: h.undo.drop_last().push(touched(h.undo.last())), redo: h.redo }, current)
        }),
{
    let (h1, s1) = undone(h, current);
    assert(h1.redo.drop_last() =~= h.redo);
}

/// Undoing right after a redo gives back the state that the redo replaced, and the
/// history it had, but that the state redone to is kept as it stood after the redo.
pub proof fn lemma_undo_after_redo(h: HistoryView, current: EditorStateView)
    requires
        h.redo.len() > 0,
    ensures
        ({
            let (h1, s1) = redone(h, current);
            undone(h1, touched(s1)) == (HistoryView { undo: h.undo, redo: h.redo.drop_last().push(touched(h.redo.last())) }, current)
        }),
{
    let (h1, s1) = redone(h, current);
    assert(h1.undo.drop_last() =~= h.undo);
}

} // verus!
