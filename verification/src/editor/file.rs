//! The open agent file: its path, whether it has unsaved changes, its dependencies,
//! its tags and the selected tag.
use vstd::prelude::*;
use crate::format::file_block::{File, FileView};
use crate::format::pray::{Block, BlockView, blocks_view, files_view};
use super::history::{HistoryState, recorded, add_history_state, reset_history};
use super::dependency::{check_dependencies_for_tag, sort_dependencies, sorted_by_key, marked, tag_dependencies};
use crate::text::{push_str, to_owned, str_eq, ascii_lowercase, to_ascii_lowercase};
use crate::file_helper::{extension, file_stem_of, or_empty, path_extension, path_file_stem};

verus! {

/// The open agent file.
pub struct FileState {
    pub path: Option<String>,
    pub is_modified: bool,
    pub dependencies: Vec<File>,
    pub tags: Vec<Block>,
    pub selected_tag: Option<usize>,
}

/// The value of an editor state: the open file's path, whether it has unsaved changes,
/// its dependencies, its tags and the selected tag.
pub struct EditorStateView {
    pub path: Option<Seq<char>>,
    pub is_modified: bool,
    pub dependencies: Seq<FileView>,
    pub tags: Seq<BlockView>,
    pub selected_tag: Option<usize>,
}

/// The characters of an optional string.
pub open spec fn opt_view(o: Option<String>) -> Option<Seq<char>> {
    match o {
        Some(s) => Some(s@),
        None => None,
    }
}

impl View for FileState {
    type V = EditorStateView;

    open spec fn view(&self) -> EditorStateView {
        EditorStateView {
            path: opt_view(self.path),
            is_modified: self.is_modified,
            dependencies: files_view(self.dependencies@),
            tags: blocks_view(self.tags@),
            selected_tag: self.selected_tag,
        }
    }
}

/// A state with its unsaved-changes mark set.
pub open spec fn touched(s: EditorStateView) -> EditorStateView {
    EditorStateView { is_modified: true, ..s }
}

impl FileState {
    /// No file: no path, no changes, no dependencies, no tags, nothing selected.
    pub fn new() -> (r: FileState)
        ensures
            r@ == (EditorStateView {
                path: None,
                is_modified: false,
                dependencies: Seq::empty(),
                tags: Seq::empty(),
                selected_tag: None,
            }),
    {
        let r = FileState { path: None, is_modified: false, dependencies: Vec::new(), tags: Vec::new(), selected_tag: None };
        assert(r@.dependencies =~= Seq::<FileView>::empty());
        assert(r@.tags =~= Seq::<BlockView>::empty());
        r
    }
}

/// Marks the file as changed, first recording its state for undo where asked to.
pub fn modify_file(file_state: &mut FileState, history: &mut HistoryState, add_to_history: bool)
    ensures
        final(file_state)@ == touched(old(file_state)@),
        final(history)@ == if add_to_history { recorded(old(history)@, old(file_state)@) } else { old(history)@ },
{
    if add_to_history {
        add_history_state(history, file_state);
    }
    file_state.is_modified = true;
}

/// Marks the file as saved.
pub fn reset_file_modified(file_state: &mut FileState)
    ensures
        final(file_state)@ == (EditorStateView { is_modified: false, ..old(file_state)@ }),
{
    file_state.is_modified = false;
}

/// The place of the selected tag, where one is selected and it exists.
pub open spec fn selected_place(s: EditorStateView) -> Option<int> {
    match s.selected_tag {
        Some(i) => if i < s.tags.len() {
            Some(i as int)
        } else {
            None
        },
        None => None,
    }
}

/// The tags with the selected one, where there is one, changed by `f`.
pub open spec fn change_selected(s: EditorStateView, f: spec_fn(BlockView) -> BlockView) -> Seq<BlockView> {
    match selected_place(s) {
        Some(i) => s.tags.update(i, f(s.tags[i])),
        None => s.tags,
    }
}

/// The place of the selected tag, where one is selected and it exists.
pub fn selected_index(file_state: &FileState) -> (r: Option<usize>)
    ensures
        match r {
            Some(i) => selected_place(file_state@) == Some(i as int),
            None => selected_place(file_state@) is None,
        },
{
    match file_state.selected_tag {
        Some(i) => if i < file_state.tags.len() {
            Some(i)
        } else {
            None
        },
        None => None,
    }
}

/// The file blocks among blocks, in order.
pub open spec fn file_blocks(bs: Seq<BlockView>) -> Seq<FileView>
    decreases bs.len(),
{
    if bs.len() == 0 {
        Seq::empty()
    } else {
        file_blocks(bs.drop_last()) + match bs.last() {
            BlockView::File(f) => seq![f],
            _ => Seq::empty(),
        }
    }
}

/// The blocks other than files, in order: the tags.
pub open spec fn tag_blocks(bs: Seq<BlockView>) -> Seq<BlockView>
    decreases bs.len(),
{
    if bs.len() == 0 {
        Seq::empty()
    } else {
        tag_blocks(bs.drop_last()) + match bs.last() {
            BlockView::File(_) => Seq::empty(),
            b => seq![b],
        }
    }
}

/// Forgets the open file: no path, no dependencies, no tags, nothing selected, no
/// history and no unsaved changes.
pub fn new_file(file_state: &mut FileState, history: &mut HistoryState)
    ensures
        final(file_state)@ == (EditorStateView {
            path: None,
            is_modified: false,
            dependencies: Seq::empty(),
            tags: Seq::empty(),
            selected_tag: None,
        }),
        final(history)@.undo == Seq::<EditorStateView>::empty(),
        final(history)@.redo == Seq::<EditorStateView>::empty(),
{
    file_state.path = None;
    file_state.dependencies = Vec::new();
    file_state.tags = Vec::new();
    file_state.selected_tag = None;
    reset_history(history);
    reset_file_modified(file_state);
    assert(file_state@.dependencies =~= Seq::<FileView>::empty());
    assert(file_state@.tags =~= Seq::<BlockView>::empty());
}

/// Takes the blocks of a file read from `path` as the open file: its file blocks become
/// the dependencies and the others the tags; the first tag is selected and the
/// dependencies it names are checked; the dependencies are then sorted. The history is
/// forgotten and there are no unsaved changes.
pub fn load_file(file_state: &mut FileState, history: &mut HistoryState, path: String, blocks: Vec<Block>)
    ensures
        final(history)@.undo == Seq::<EditorStateView>::empty(),
        final(history)@.redo == Seq::<EditorStateView>::empty(),
        ({
            let tags = tag_blocks(blocks_view(blocks@));
            let files = file_blocks(blocks_view(blocks@));
            &&& final(file_state)@.path == Some(path@)
            &&& !final(file_state)@.is_modified
            &&& final(file_state)@.tags == tags
            &&& final(file_state)@.selected_tag == if tags.len() > 0 { Some(0usize) } else { None }
            &&& sorted_by_key(final(file_state)@.dependencies)
            &&& final(file_state)@.dependencies.to_multiset() == (if tags.len() > 0 {
                marked(files, tag_dependencies(tags[0]))
            } else {
                files
            }).to_multiset()
        }),
{
    let ghost bv = blocks_view(blocks@);
    file_state.path = Some(path);
    reset_history(history);
    reset_file_modified(file_state);
    let mut dependencies: Vec<File> = Vec::new();
    let mut tags: Vec<Block> = Vec::new();
    let mut blocks = blocks;
    let ghost n = bv.len();
    while blocks.len() > 0
        invariant
            bv.len() == n,
            blocks@.len() <= n,
            blocks_view(blocks@) == bv.skip(n - blocks@.len()),
            files_view(dependencies@) == file_blocks(bv.take(n - blocks@.len())),
            blocks_view(tags@) == tag_blocks(bv.take(n - blocks@.len())),
        decreases blocks@.len(),
    {
        let ghost k = n - blocks@.len();
        let ghost rest = blocks@;
        let block = blocks.remove(0);
        assert forall|j: int| 0 <= j < blocks@.len() implies #[trigger] blocks_view(blocks@)[j] == bv.skip(n - blocks@.len())[j] by {
            assert(blocks@[j] == rest[j + 1]);
            assert(blocks_view(rest)[j + 1] == bv.skip(k)[j + 1]);
        }
        assert(block@ == bv[k]) by {
            assert(bv.skip(k)[0] == bv[k]);
        }
        assert(bv.take(k + 1).drop_last() =~= bv.take(k));
        assert(bv.take(k + 1).last() == bv[k]);
        let ghost dv = files_view(dependencies@);
        let ghost tv = blocks_view(tags@);
        match block {
            Block::File(file) => {
                dependencies.push(file);
                assert(files_view(dependencies@) =~= dv.push(bv[k]->File_0));
                assert(blocks_view(tags@) =~= tv);
            },
            _ => {
                tags.push(block);
                assert(blocks_view(tags@) =~= tv.push(bv[k]));
                assert(files_view(dependencies@) =~= dv);
            },
        }
        assert(blocks_view(blocks@) =~= bv.skip(n - blocks@.len()));
    }
    assert(bv.take(n as int) =~= bv);
    let ghost files = files_view(dependencies@);
    if tags.len() > 0 {
        file_state.selected_tag = Some(0);
        check_dependencies_for_tag(&tags[0], &mut dependencies);
    } else {
        file_state.selected_tag = None;
    }
    sort_dependencies(&mut dependencies);
    file_state.dependencies = dependencies;
    file_state.tags = tags;
}

/// The window title: an unsaved-changes mark (`*`), then the file's stem and
/// " - Theist"; for a file without a path, "*Untitled - Theist" or just "Theist".
pub open spec fn window_title(s: EditorStateView) -> Seq<char> {
    let mark = if s.is_modified { "*"@ } else { Seq::empty() };
    match s.path {
        Some(p) => match path_file_stem(p) {
            Some(stem) => mark + stem + " - Theist"@,
            None => if s.is_modified { "*Untitled - Theist"@ } else { "Theist"@ },
        },
        None => if s.is_modified { "*Untitled - Theist"@ } else { "Theist"@ },
    }
}

/// The window title for the open file.
pub fn update_title(file_state: &FileState) -> (r: String)
    ensures
        r@ == window_title(file_state@),
{
    let mut title = if file_state.is_modified { to_owned("*") } else { String::new() };
    if let Some(path) = &file_state.path {
        if let Some(stem) = file_stem_of(path.as_str()) {
            push_str(&mut title, stem.as_str());
            push_str(&mut title, " - Theist");
            return title;
        }
    }
    if file_state.is_modified {
        to_owned("*Untitled - Theist")
    } else {
        to_owned("Theist")
    }
}

/// Whether a dropped file is an agent file: its extension, in lower case, is `agent`
/// or `agents`.
pub fn is_agent_file(path: &str) -> (r: bool)
    ensures
        r == ({
            let e = ascii_lowercase(or_empty(path_extension(path@)));
            e == "agent"@ || e == "agents"@
        }),
{
    let e = to_ascii_lowercase(extension(path).as_str());
    str_eq(e.as_str(), "agent") || str_eq(e.as_str(), "agents")
}

} // verus!
