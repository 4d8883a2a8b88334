//! Selecting, adding, duplicating and removing the tags of the open file.
use vstd::prelude::*;
use crate::format::agent_block::{Agent, AgentView, GameSupport, Description, DescriptionView, Language};
use crate::format::egg_block::{Egg, EggView};
use crate::format::gb_block::{GardenBox, GardenBoxView};
use crate::format::generic_block::GenericBlockView;
use crate::format::pray::{Block, BlockView};
use crate::text::{push_str, to_owned};
use super::file::{FileState, EditorStateView, touched, selected_place, selected_index, modify_file};
use super::history::{HistoryState, recorded};
use super::dependency::{check_dependencies_for_tag, marked, checked_indices, tag_dependencies};

verus! {

/// Selects the tag at `selected_tag`, checking the dependencies it names; gives, for
/// each name of the tag in turn, the places of the dependencies with that file name.
/// Where there is no such tag, nothing changes and `None` comes back.
pub fn select_tag(file_state: &mut FileState, selected_tag: u32) -> (r: Option<Vec<u32>>)
    ensures
        if (selected_tag as int) < old(file_state)@.tags.len() {
            let t = old(file_state)@.tags[selected_tag as int];
            &&& r matches Some(c) && c@ == checked_indices(tag_dependencies(t), old(file_state)@.dependencies)
            &&& final(file_state)@ == (EditorStateView {
                selected_tag: Some(selected_tag as usize),
                dependencies: marked(old(file_state)@.dependencies, tag_dependencies(t)),
                ..old(file_state)@
            })
        } else {
            r is None && final(file_state)@ == old(file_state)@
        },
{
    let index = selected_tag as usize;
    if index < file_state.tags.len() {
        file_state.selected_tag = Some(index);
        let checked_dependencies = check_dependencies_for_tag(&file_state.tags[index], &mut file_state.dependencies);
        Some(checked_dependencies)
    } else {
        None
    }
}

/// A new agent: "Agent", for Docking Station, with one empty English description.
pub open spec fn new_agent_view() -> AgentView {
    AgentView {
        name: "Agent"@,
        game_support: GameSupport::DockingStation,
        descriptions: seq![DescriptionView { language: Language::English, text: Seq::empty() }],
        bioenergy: 0,
        web_label: Seq::empty(),
        web_url: Seq::empty(),
        animation_file: Seq::empty(),
        animation_string: Seq::empty(),
        sprite_first_image: 0,
        remove_script: Seq::empty(),
        dependencies: Seq::empty(),
    }
}

/// A new egg: "Egg", with nothing set.
pub open spec fn new_egg_view() -> EggView {
    EggView {
        name: "Egg"@,
        genetics_file: Seq::empty(),
        genetics_file_mother: Seq::empty(),
        genetics_file_father: Seq::empty(),
        sprite_file_male: Seq::empty(),
        sprite_file_female: Seq::empty(),
        animation_string: Seq::empty(),
        dependencies: Seq::empty(),
    }
}

/// A new garden box item: "Garden Box", in the first category, with nothing set.
pub open spec fn new_gb_view() -> GardenBoxView {
    GardenBoxView {
        name: "Garden Box"@,
        description: Seq::empty(),
        author: Seq::empty(),
        category: 1,
        animation_file: Seq::empty(),
        sprite_first_image: 0,
        remove_script: Seq::empty(),
        dependencies: Seq::empty(),
    }
}

/// The state after adding the tag `t`, which becomes the selected one.
pub open spec fn tag_added(s: EditorStateView, t: BlockView) -> EditorStateView {
    EditorStateView { tags: s.tags.push(t), selected_tag: Some(s.tags.len() as usize), ..touched(s) }
}

/// Adds a tag at the end and selects it, recording the state first for undo; gives its
/// place.
pub fn add_tag(file_state: &mut FileState, history: &mut HistoryState, new_tag: Block) -> (r: usize)
    ensures
        final(history)@ == recorded(old(history)@, old(file_state)@),
        final(file_state)@ == tag_added(old(file_state)@, new_tag@),
        r == old(file_state)@.tags.len(),
{
    modify_file(file_state, history, true);
    file_state.tags.push(new_tag);
    let selected_tag = file_state.tags.len() - 1;
    file_state.selected_tag = Some(selected_tag);
    assert(file_state@.tags =~= old(file_state)@.tags.push(new_tag@));
    selected_tag
}

/// Adds a new agent and selects it, recording the state first for undo; gives its
/// place.
pub fn add_agent_tag(file_state: &mut FileState, history: &mut HistoryState) -> (r: usize)
    ensures
        final(history)@ == recorded(old(history)@, old(file_state)@),
        final(file_state)@ == tag_added(old(file_state)@, BlockView::Agent(new_agent_view())),
        r == old(file_state)@.tags.len(),
{
    let mut descriptions: Vec<Description> = Vec::new();
    descriptions.push(Description::new(Language::English, String::new()));
    let agent = Agent {
        name: to_owned("Agent"),
        game_support: GameSupport::DockingStation,
        descriptions,
        bioenergy: 0,
        web_label: String::new(),
        web_url: String::new(),
        animation_file: String::new(),
        animation_string: String::new(),
        sprite_first_image: 0,
        remove_script: String::new(),
        dependencies: Vec::new(),
    };
    assert(agent@.descriptions =~= new_agent_view().descriptions);
    assert(agent@.dependencies =~= new_agent_view().dependencies);
    add_tag(file_state, history, Block::Agent(agent))
}

/// Adds a new egg and selects it, recording the state first for undo; gives its place.
pub fn add_egg_tag(file_state: &mut FileState, history: &mut HistoryState) -> (r: usize)
    ensures
        final(history)@ == recorded(old(history)@, old(file_state)@),
        final(file_state)@ == tag_added(old(file_state)@, BlockView::Egg(new_egg_view())),
        r == old(file_state)@.tags.len(),
{
    let egg = Egg {
        name: to_owned("Egg"),
        genetics_file: String::new(),
        genetics_file_mother: String::new(),
        genetics_file_father: String::new(),
        sprite_file_male: String::new(),
        sprite_file_female: String::new(),
        animation_string: String::new(),
        dependencies: Vec::new(),
    };
    assert(egg@.dependencies =~= new_egg_view().dependencies);
    add_tag(file_state, history, Block::Egg(egg))
}

/// Adds a new garden box item and selects it, recording the state first for undo;
/// gives its place.
pub fn add_gb_tag(file_state: &mut FileState, history: &mut HistoryState) -> (r: usize)
    ensures
        final(history)@ == recorded(old(history)@, old(file_state)@),
        final(file_state)@ == tag_added(old(file_state)@, BlockView::GardenBox(new_gb_view())),
        r == old(file_state)@.tags.len(),
{
    let gb = GardenBox {
        name: to_owned("Garden Box"),
        description: String::new(),
        author: String::new(),
        category: 1,
        animation_file: String::new(),
        sprite_first_image: 0,
        remove_script: String::new(),
        dependencies: Vec::new(),
    };
    assert(gb@.dependencies =~= new_gb_view().dependencies);
    add_tag(file_state, history, Block::GardenBox(gb))
}

/// A copy of a tag, its name followed by " Copy" (a file block keeps its name).
pub open spec fn tag_copy(b: BlockView) -> BlockView {
    match b {
        BlockView::Agent(a) => BlockView::Agent(AgentView { name: a.name + " Copy"@, ..a }),
        BlockView::Egg(e) => BlockView::Egg(EggView { name: e.name + " Copy"@, ..e }),
        BlockView::GardenBox(g) => BlockView::GardenBox(GardenBoxView { name: g.name + " Copy"@, ..g }),
        BlockView::Generic(g) => BlockView::Generic(GenericBlockView { name: g.name + " Copy"@, ..g }),
        BlockView::File(_) => b,
    }
}

/// Puts a copy of the selected tag right after it and selects the copy, recording the
/// state first for undo; gives the copy's place. Where no tag is selected, only the
/// record and the unsaved-changes mark are made.
pub fn duplicate_tag(file_state: &mut FileState, history: &mut HistoryState) -> (r: Option<usize>)
    ensures
        final(history)@ == recorded(old(history)@, old(file_state)@),
        match selected_place(old(file_state)@) {
            Some(i) => r == Some((i + 1) as usize) && final(file_state)@ == (EditorStateView {
                tags: old(file_state)@.tags.insert(i + 1, tag_copy(old(file_state)@.tags[i])),
                selected_tag: Some((i + 1) as usize),
                ..touched(old(file_state)@)
            }),
            None => r is None && final(file_state)@ == touched(old(file_state)@),
        },
{
    modify_file(file_state, history, true);
    if let Some(i) = selected_index(file_state) {
        assert(i < file_state.tags.len());
        let mut copy = file_state.tags[i].copy();
        match &mut copy {
            Block::Agent(t) => {
                push_str(&mut t.name, " Copy");
            },
            Block::Egg(t) => {
                push_str(&mut t.name, " Copy");
            },
            Block::GardenBox(t) => {
                push_str(&mut t.name, " Copy");
            },
            Block::Generic(t) => {
                push_str(&mut t.name, " Copy");
            },
            _ => {},
        }
        let ghost copy_v = copy@;
        assert(copy_v == tag_copy(old(file_state)@.tags[i as int]));
        file_state.tags.insert(i + 1, copy);
        file_state.selected_tag = Some(i + 1);
        assert(file_state@.tags =~= old(file_state)@.tags.insert(i + 1, copy_v));
        Some(i + 1)
    } else {
        None
    }
}

/// Removes the selected tag and selects the one before it (the first, where it was the
/// first; nothing, where none is left), recording the state first for undo; then checks
/// the dependencies that the newly selected tag names. Gives the new selection's place
/// and, where a tag is selected, the places of the dependencies it names. Where no tag
/// is selected, nothing changes and `None` comes back.
pub fn remove_tag(file_state: &mut FileState, history: &mut HistoryState) -> (r: Option<(usize, Option<Vec<u32>>)>)
    requires
        old(file_state)@.selected_tag matches Some(i) ==> i < old(file_state)@.tags.len(),
    ensures
        match old(file_state)@.selected_tag {
            Some(i) => {
                let tags = old(file_state)@.tags.remove(i as int);
                let k = if i >= 1 { (i - 1) as usize } else { 0usize };
                &&& final(history)@ == recorded(old(history)@, old(file_state)@)
                &&& if k < tags.len() {
                    let t = tags[k as int];
                    &&& r matches Some((kk, Some(c))) && kk == k
                        && c@ == checked_indices(tag_dependencies(t), old(file_state)@.dependencies)
                    &&& final(file_state)@ == (EditorStateView {
                        tags,
                        selected_tag: Some(k),
                        dependencies: marked(old(file_state)@.dependencies, tag_dependencies(t)),
                        ..touched(old(file_state)@)
                    })
                } else {
                    &&& r matches Some((kk, None)) && kk == k
                    &&& final(file_state)@ == (EditorStateView { tags, selected_tag: None, ..touched(old(file_state)@) })
                }
            },
            None => r is None && final(file_state)@ == old(file_state)@ && final(history)@ == old(history)@,
        },
{
    if let Some(selected_tag_index) = file_state.selected_tag {
        modify_file(file_state, history, true);
        file_state.tags.remove(selected_tag_index);
        assert(file_state@.tags =~= old(file_state)@.tags.remove(selected_tag_index as int));
        let k = if selected_tag_index >= 1 { selected_tag_index - 1 } else { 0 };
        file_state.selected_tag = if file_state.tags.len() == 0 { None } else { Some(k) };
        if k < file_state.tags.len() {
            let checked_dependencies = check_dependencies_for_tag(&file_state.tags[k], &mut file_state.dependencies);
            Some((k, Some(checked_dependencies)))
        } else {
            Some((k, None))
        }
    } else {
        None
    }
}

} // verus!
