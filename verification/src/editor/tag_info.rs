//! Changing the selected tag's properties and descriptions.
use vstd::prelude::*;
use crate::format::agent_block::{AgentView, GameSupport, Language, Description, DescriptionView, descriptions_view};
use crate::format::egg_block::EggView;
use crate::format::gb_block::GardenBoxView;
use crate::format::pray::{Block, BlockView, files_view};
use vstd::utf8::{valid_utf8, decode_utf8};
use crate::text::{str_eq, to_owned, trim, trimmed, strings_view, utf8_to_string, push_str};
use crate::pattern::{capture_group, replace_all, regex_group, regex_replaced};
use crate::format::file_block::{FileView, full_name};
use crate::format::agent_block::contains_name;
use super::file::{FileState, EditorStateView, touched, selected_place, change_selected, selected_index, modify_file};
use super::history::{HistoryState, recorded};

verus! {

/// A tag with the text property `prop` set to `value`: an agent's game support (to
/// `Creatures3` or `DockingStation` only), name, web label, web URL, animation file,
/// animation string or remove script; an egg's name, genetics files, sprite files or
/// animation string; a garden box item's name, description, author or animation file.
/// Any other property, or another kind of block, is left as it is.
pub open spec fn prop_str_changed(b: BlockView, prop: Seq<char>, value: Seq<char>) -> BlockView {
    match b {
        BlockView::Agent(a) => if prop == "game_support"@ {
            if value == "Creatures3"@ {
                BlockView::Agent(AgentView { game_support: GameSupport::Creatures3, ..a })
            } else if value == "DockingStation"@ {
                BlockView::Agent(AgentView { game_support: GameSupport::DockingStation, ..a })
            } else {
                b
            }
        } else if prop == "name"@ {
            BlockView::Agent(AgentView { name: value, ..a })
        } else if prop == "web_label"@ {
            BlockView::Agent(AgentView { web_label: value, ..a })
        } else if prop == "web_url"@ {
            BlockView::Agent(AgentView { web_url: value, ..a })
        } else if prop == "animation_file"@ {
            BlockView::Agent(AgentView { animation_file: value, ..a })
        } else if prop == "animation_string"@ {
            BlockView::Agent(AgentView { animation_string: value, ..a })
        } else if prop == "remove_script"@ {
            BlockView::Agent(AgentView { remove_script: value, ..a })
        } else {
            b
        },
        BlockView::Egg(e) => if prop == "name"@ {
            BlockView::Egg(EggView { name: value, ..e })
        } else if prop == "genetics_file"@ {
            BlockView::Egg(EggView { genetics_file: value, ..e })
        } else if prop == "genetics_file_mother"@ {
            BlockView::Egg(EggView { genetics_file_mother: value, ..e })
        } else if prop == "genetics_file_father"@ {
            BlockView::Egg(EggView { genetics_file_father: value, ..e })
        } else if prop == "sprite_file_male"@ {
            BlockView::Egg(EggView { sprite_file_male: value, ..e })
        } else if prop == "sprite_file_female"@ {
            BlockView::Egg(EggView { sprite_file_female: value, ..e })
        } else if prop == "animation_string"@ {
            BlockView::Egg(EggView { animation_string: value, ..e })
        } else {
            b
        },
        BlockView::GardenBox(g) => if prop == "name"@ {
            BlockView::GardenBox(GardenBoxView { name: value, ..g })
        } else if prop == "description"@ {
            BlockView::GardenBox(GardenBoxView { description: value, ..g })
        } else if prop == "author"@ {
            BlockView::GardenBox(GardenBoxView { author: value, ..g })
        } else if prop == "animation_file"@ {
            BlockView::GardenBox(GardenBoxView { animation_file: value, ..g })
        } else {
            b
        },
        _ => b,
    }
}

/// Sets a text property of the selected tag, recording the state first for undo; gives
/// whether the tag's game support changed, after which its shown information is out
/// of date.
pub fn update_prop_str(file_state: &mut FileState, history: &mut HistoryState, prop: &str, value: &str) -> (r: bool)
    ensures
        final(history)@ == recorded(old(history)@, old(file_state)@),
        final(file_state)@ == (EditorStateView {
            tags: change_selected(old(file_state)@, |b: BlockView| prop_str_changed(b, prop@, value@)),
            ..touched(old(file_state)@)
        }),
        r == (selected_place(old(file_state)@) matches Some(i) && old(file_state)@.tags[i] is Agent
            && prop@ == "game_support"@ && (value@ == "Creatures3"@ || value@ == "DockingStation"@)),
{
    modify_file(file_state, history, true);
    let mut changed_game = false;
    if let Some(i) = selected_index(file_state) {
        let tag = &mut file_state.tags[i];
        match tag {
            Block::Agent(agent_tag) => {
                if str_eq(prop, "game_support") {
                    if str_eq(value, "Creatures3") {
                        agent_tag.game_support = GameSupport::Creatures3;
                        changed_game = true;
                    } else if str_eq(value, "DockingStation") {
                        agent_tag.game_support = GameSupport::DockingStation;
                        changed_game = true;
                    }
                } else if str_eq(prop, "name") {
                    agent_tag.name = to_owned(value);
                } else if str_eq(prop, "web_label") {
                    agent_tag.web_label = to_owned(value);
                } else if str_eq(prop, "web_url") {
                    agent_tag.web_url = to_owned(value);
                } else if str_eq(prop, "animation_file") {
                    agent_tag.animation_file = to_owned(value);
                } else if str_eq(prop, "animation_string") {
                    agent_tag.animation_string = to_owned(value);
                } else if str_eq(prop, "remove_script") {
                    agent_tag.remove_script = to_owned(value);
                }
            },
            Block::Egg(egg_tag) => {
                if str_eq(prop, "name") {
                    egg_tag.name = to_owned(value);
                } else if str_eq(prop, "genetics_file") {
                    egg_tag.genetics_file = to_owned(value);
                } else if str_eq(prop, "genetics_file_mother") {
                    egg_tag.genetics_file_mother = to_owned(value);
                } else if str_eq(prop, "genetics_file_father") {
                    egg_tag.genetics_file_father = to_owned(value);
                } else if str_eq(prop, "sprite_file_male") {
                    egg_tag.sprite_file_male = to_owned(value);
                } else if str_eq(prop, "sprite_file_female") {
                    egg_tag.sprite_file_female = to_owned(value);
                } else if str_eq(prop, "animation_string") {
                    egg_tag.animation_string = to_owned(value);
                }
            },
            Block::GardenBox(gb_tag) => {
                if str_eq(prop, "name") {
                    gb_tag.name = to_owned(value);
                } else if str_eq(prop, "description") {
                    gb_tag.description = to_owned(value);
                } else if str_eq(prop, "author") {
                    gb_tag.author = to_owned(value);
                } else if str_eq(prop, "animation_file") {
                    gb_tag.animation_file = to_owned(value);
                }
            },
            _ => {},
        }
    }
    proof {
        assert(file_state@.tags =~= change_selected(old(file_state)@, |b: BlockView| prop_str_changed(b, prop@, value@)));
    }
    changed_game
}

/// A tag with the number property `prop` set to `value`: an agent's bioenergy or first
/// sprite image, a garden box item's category or first sprite image. Any other
/// property, or another kind of block, is left as it is.
pub open spec fn prop_int_changed(b: BlockView, prop: Seq<char>, value: u32) -> BlockView {
    match b {
        BlockView::Agent(a) => if prop == "bioenergy"@ {
            BlockView::Agent(AgentView { bioenergy: value, ..a })
        } else if prop == "sprite_first_image"@ {
            BlockView::Agent(AgentView { sprite_first_image: value, ..a })
        } else {
            b
        },
        BlockView::GardenBox(g) => if prop == "category"@ {
            BlockView::GardenBox(GardenBoxView { category: value, ..g })
        } else if prop == "sprite_first_image"@ {
            BlockView::GardenBox(GardenBoxView { sprite_first_image: value, ..g })
        } else {
            b
        },
        _ => b,
    }
}

/// Sets a number property of the selected tag, recording the state first for undo.
pub fn update_prop_int(file_state: &mut FileState, history: &mut HistoryState, prop: &str, value: u32)
    ensures
        final(history)@ == recorded(old(history)@, old(file_state)@),
        final(file_state)@ == (EditorStateView {
            tags: change_selected(old(file_state)@, |b: BlockView| prop_int_changed(b, prop@, value)),
            ..touched(old(file_state)@)
        }),
{
    modify_file(file_state, history, true);
    if let Some(i) = selected_index(file_state) {
        let tag = &mut file_state.tags[i];
        match tag {
            Block::Agent(agent_tag) => {
                if str_eq(prop, "bioenergy") {
                    agent_tag.bioenergy = value;
                } else if str_eq(prop, "sprite_first_image") {
                    agent_tag.sprite_first_image = value;
                }
            },
            Block::GardenBox(gb_tag) => {
                if str_eq(prop, "category") {
                    gb_tag.category = value;
                } else if str_eq(prop, "sprite_first_image") {
                    gb_tag.sprite_first_image = value;
                }
            },
            _ => {},
        }
    }
    proof {
        assert(file_state@.tags =~= change_selected(old(file_state)@, |b: BlockView| prop_int_changed(b, prop@, value)));
    }
}

/// The language a name gives, where it names one.
pub open spec fn language_named(value: Seq<char>) -> Option<Language> {
    if value == "English"@ {
        Some(Language::English)
    } else if value == "German"@ {
        Some(Language::German)
    } else if value == "Spanish"@ {
        Some(Language::Spanish)
    } else if value == "French"@ {
        Some(Language::French)
    } else if value == "Italian"@ {
        Some(Language::Italian)
    } else if value == "Dutch"@ {
        Some(Language::Dutch)
    } else {
        None
    }
}

/// An agent with its description at `index` changed by `f`, where it has one; any
/// other block as it is.
pub open spec fn description_changed(b: BlockView, index: int, f: spec_fn(DescriptionView) -> DescriptionView) -> BlockView {
    match b {
        BlockView::Agent(a) => if 0 <= index < a.descriptions.len() {
            BlockView::Agent(AgentView { descriptions: a.descriptions.update(index, f(a.descriptions[index])), ..a })
        } else {
            b
        },
        _ => b,
    }
}

/// Sets the language of the selected agent's description at `index` to the one that
/// `value` names, recording the state first for undo; nothing changes where `value`
/// names no language.
pub fn update_description_language(file_state: &mut FileState, history: &mut HistoryState, index: u32, value: &str)
    ensures
        final(history)@ == recorded(old(history)@, old(file_state)@),
        final(file_state)@ == (EditorStateView {
            tags: change_selected(
                old(file_state)@,
                |b: BlockView| description_changed(b, index as int, |d: DescriptionView| match language_named(value@) {
                    Some(l) => DescriptionView { language: l, ..d },
                    None => d,
                }),
            ),
            ..touched(old(file_state)@)
        }),
{
    modify_file(file_state, history, true);
    let language = if str_eq(value, "English") {
        Some(Language::English)
    } else if str_eq(value, "German") {
        Some(Language::German)
    } else if str_eq(value, "Spanish") {
        Some(Language::Spanish)
    } else if str_eq(value, "French") {
        Some(Language::French)
    } else if str_eq(value, "Italian") {
        Some(Language::Italian)
    } else if str_eq(value, "Dutch") {
        Some(Language::Dutch)
    } else {
        None
    };
    if let Some(i) = selected_index(file_state) {
        let tag = &mut file_state.tags[i];
        if let Block::Agent(agent_tag) = tag {
            let k = index as usize;
            if k < agent_tag.descriptions.len() {
                if let Some(l) = language {
                    agent_tag.descriptions[k].language = l;
                }
                assert(descriptions_view(agent_tag.descriptions@) =~= descriptions_view(old(file_state).tags@[i as int]->Agent_0.descriptions@).update(
                    k as int,
                    match language_named(value@) {
                        Some(l) => DescriptionView { language: l, ..descriptions_view(old(file_state).tags@[i as int]->Agent_0.descriptions@)[k as int] },
                        None => descriptions_view(old(file_state).tags@[i as int]->Agent_0.descriptions@)[k as int],
                    },
                ));
            }
        }
    }
    proof {
        assert(file_state@.tags =~= change_selected(
            old(file_state)@,
            |b: BlockView| description_changed(b, index as int, |d: DescriptionView| match language_named(value@) {
                Some(l) => DescriptionView { language: l, ..d },
                None => d,
            }),
        ));
    }
}

/// Sets the text of the selected agent's description at `index`, recording the state
/// first for undo.
pub fn update_description_text(file_state: &mut FileState, history: &mut HistoryState, index: usize, value: &str)
    ensures
        final(history)@ == recorded(old(history)@, old(file_state)@),
        final(file_state)@ == (EditorStateView {
            tags: change_selected(
                old(file_state)@,
                |b: BlockView| description_changed(b, index as int, |d: DescriptionView| DescriptionView { text: value@, ..d }),
            ),
            ..touched(old(file_state)@)
        }),
{
    modify_file(file_state, history, true);
    if let Some(i) = selected_index(file_state) {
        let tag = &mut file_state.tags[i];
        if let Block::Agent(agent_tag) = tag {
            if index < agent_tag.descriptions.len() {
                agent_tag.descriptions[index].text = to_owned(value);
                assert(descriptions_view(agent_tag.descriptions@) =~= descriptions_view(old(file_state).tags@[i as int]->Agent_0.descriptions@).update(
                    index as int,
                    DescriptionView { text: value@, ..descriptions_view(old(file_state).tags@[i as int]->Agent_0.descriptions@)[index as int] },
                ));
            }
        }
    }
    proof {
        assert(file_state@.tags =~= change_selected(
            old(file_state)@,
            |b: BlockView| description_changed(b, index as int, |d: DescriptionView| DescriptionView { text: value@, ..d }),
        ));
    }
}

/// An agent without its description at `index`; any other block as it is.
pub open spec fn description_removed(b: BlockView, index: int) -> BlockView {
    match b {
        BlockView::Agent(a) => BlockView::Agent(AgentView { descriptions: a.descriptions.remove(index), ..a }),
        _ => b,
    }
}

/// Removes the selected agent's description at `index`, recording the state first for
/// undo; gives whether it was removed.
pub fn remove_description(file_state: &mut FileState, history: &mut HistoryState, index: usize) -> (r: bool)
    requires
        selected_place(old(file_state)@) matches Some(i) && old(file_state)@.tags[i] matches BlockView::Agent(a)
            ==> index < a.descriptions.len(),
    ensures
        final(history)@ == recorded(old(history)@, old(file_state)@),
        final(file_state)@ == (EditorStateView {
            tags: change_selected(old(file_state)@, |b: BlockView| description_removed(b, index as int)),
            ..touched(old(file_state)@)
        }),
        r == (selected_place(old(file_state)@) matches Some(i) && old(file_state)@.tags[i] is Agent),
{
    modify_file(file_state, history, true);
    let mut removed = false;
    if let Some(i) = selected_index(file_state) {
        let tag = &mut file_state.tags[i];
        if let Block::Agent(agent_tag) = tag {
            agent_tag.descriptions.remove(index);
            removed = true;
            assert(descriptions_view(agent_tag.descriptions@) =~= descriptions_view(old(file_state).tags@[i as int]->Agent_0.descriptions@).remove(index as int));
        }
    }
    proof {
        assert(file_state@.tags =~= change_selected(old(file_state)@, |b: BlockView| description_removed(b, index as int)));
    }
    removed
}

/// The language a new description takes after one in `last`: English goes on to
/// Spanish, Spanish to French, French to German, German to Italian, Italian to Dutch,
/// and Dutch back to Spanish.
pub open spec fn next_language(last: Language) -> Language {
    match last {
        Language::English => Language::Spanish,
        Language::Spanish => Language::French,
        Language::French => Language::German,
        Language::German => Language::Italian,
        Language::Italian => Language::Dutch,
        Language::Dutch => Language::Spanish,
    }
}

/// An agent with a new, empty description, in the language after its last one (after
/// English where it has none); any other block as it is.
pub open spec fn description_added(b: BlockView) -> BlockView {
    match b {
        BlockView::Agent(a) => {
            let last = if a.descriptions.len() > 0 { a.descriptions.last().language } else { Language::English };
            BlockView::Agent(AgentView {
                descriptions: a.descriptions.push(DescriptionView { language: next_language(last), text: Seq::empty() }),
                ..a
            })
        },
        _ => b,
    }
}

/// Adds an empty description to the selected agent, recording the state first for
/// undo; gives whether one was added.
pub fn add_description(file_state: &mut FileState, history: &mut HistoryState) -> (r: bool)
    ensures
        final(history)@ == recorded(old(history)@, old(file_state)@),
        final(file_state)@ == (EditorStateView {
            tags: change_selected(old(file_state)@, |b: BlockView| description_added(b)),
            ..touched(old(file_state)@)
        }),
        r == (selected_place(old(file_state)@) matches Some(i) && old(file_state)@.tags[i] is Agent),
{
    modify_file(file_state, history, true);
    let mut added = false;
    if let Some(i) = selected_index(file_state) {
        let tag = &mut file_state.tags[i];
        if let Block::Agent(agent_tag) = tag {
            let n = agent_tag.descriptions.len();
            let last_language = if n > 0 { agent_tag.descriptions[n - 1].language } else { Language::English };
            let new_language = match last_language {
                Language::English => Language::Spanish,
                Language::Spanish => Language::French,
                Language::French => Language::German,
                Language::German => Language::Italian,
                Language::Italian => Language::Dutch,
                Language::Dutch => Language::Spanish,
            };
            agent_tag.descriptions.push(Description { language: new_language, text: String::new() });
            added = true;
            assert(descriptions_view(agent_tag.descriptions@) =~= descriptions_view(old(file_state).tags@[i as int]->Agent_0.descriptions@).push(
                DescriptionView { language: new_language, text: Seq::empty() },
            ));
        }
    }
    proof {
        assert(file_state@.tags =~= change_selected(old(file_state)@, |b: BlockView| description_added(b)));
    }
    added
}

/// The pattern that finds a script's remove script: what follows an `rscr` line.
pub open spec fn remove_script_pattern() -> Seq<char> {
    "[\\n\\r]rscr[\\n\\r]([\\s\\S]*)"@
}

/// The pattern of comment lines: white space, then `*`, then the rest of the line.
pub open spec fn comment_pattern() -> Seq<char> {
    "(?m)^\\s+\\*.*$"@
}

/// The pattern of runs of white space.
pub open spec fn white_space_pattern() -> Seq<char> {
    "\\s+"@
}

/// A script on one line: comment lines and then runs of white space each replaced by
/// a space, and trimmed; `None` where a pattern does not compile.
pub open spec fn one_line_script(raw: Seq<char>) -> Option<Seq<char>> {
    match regex_replaced(comment_pattern(), raw, " "@) {
        Some(x) => match regex_replaced(white_space_pattern(), x, " "@) {
            Some(y) => Some(trimmed(y)),
            None => None,
        },
        None => None,
    }
}

/// The remove script in a script's text, on one line: the text after its `rscr` line;
/// `None` where it has no `rscr` line.
pub open spec fn remove_script_in_text(text: Seq<char>) -> Option<Seq<char>> {
    match regex_group(remove_script_pattern(), text, 1) {
        Some(raw) => one_line_script(raw),
        None => None,
    }
}

/// The remove script that a script file holds, on one line; `None` where the file is
/// not UTF-8 text or has no `rscr` line.
pub open spec fn remove_script_of(data: Seq<u8>) -> Option<Seq<char>> {
    if valid_utf8(data) {
        remove_script_in_text(decode_utf8(data))
    } else {
        None
    }
}

/// The remove script of the last of the first `k` dependencies that is a script the
/// names hold and has one, with that script's file name; two empty strings where there
/// is none.
pub open spec fn found_remove_script(deps: Seq<FileView>, names: Seq<Seq<char>>, k: nat) -> (Seq<char>, Seq<char>)
    decreases k,
{
    if k == 0 {
        (Seq::empty(), Seq::empty())
    } else {
        let d = deps[k - 1];
        if d.extension == "cos"@ && names.contains(full_name(d.name, d.extension)) {
            match remove_script_of(d.data) {
                Some(s) => (s, full_name(d.name, d.extension)),
                None => found_remove_script(deps, names, (k - 1) as nat),
            }
        } else {
            found_remove_script(deps, names, (k - 1) as nat)
        }
    }
}

/// The remove script found in the scripts that the selected agent names, with the file
/// name of the script it was found in; two empty strings where none is found or the
/// selected tag is not an agent.
pub open spec fn spec_find_remove_script(s: EditorStateView) -> (Seq<char>, Seq<char>) {
    match selected_place(s) {
        Some(i) => match s.tags[i] {
            BlockView::Agent(a) => found_remove_script(s.dependencies, a.dependencies, s.dependencies.len()),
            _ => (Seq::empty(), Seq::empty()),
        },
        None => (Seq::empty(), Seq::empty()),
    }
}

/// A script on one line: comment lines and then runs of white space each replaced by
/// a space, and trimmed.
pub fn to_one_line(raw: &str) -> (r: Option<String>)
    ensures
        match r {
            Some(s) => one_line_script(raw@) == Some(s@),
            None => one_line_script(raw@) is None,
        },
{
    let without_comments = replace_all("(?m)^\\s+\\*.*$", raw, " ")?;
    let one_line = replace_all("\\s+", without_comments.as_str(), " ")?;
    Some(trim(one_line.as_str()))
}

/// The remove script in a script's text, on one line.
pub fn remove_script_from_text(text: &str) -> (r: Option<String>)
    ensures
        match r {
            Some(s) => remove_script_in_text(text@) == Some(s@),
            None => remove_script_in_text(text@) is None,
        },
{
    let raw = capture_group("[\\n\\r]rscr[\\n\\r]([\\s\\S]*)", text, 1)?;
    to_one_line(raw.as_str())
}

fn remove_script_in(data: &[u8]) -> (r: Option<String>)
    ensures
        match r {
            Some(s) => remove_script_of(data@) == Some(s@),
            None => remove_script_of(data@) is None,
        },
{
    let script = utf8_to_string(data)?;
    remove_script_from_text(script.as_str())
}

/// Finds the remove script in the scripts that the selected agent names (the last one
/// found wins), with the file name of the script it was found in; two empty strings
/// where there is none.
pub fn find_remove_script(file_state: &FileState) -> (r: (String, String))
    ensures
        (r.0@, r.1@) == spec_find_remove_script(file_state@),
{
    let mut remove_script = String::new();
    let mut script_file_name = String::new();
    if let Some(i) = selected_index(file_state) {
        if let Block::Agent(agent_tag) = &file_state.tags[i] {
            let ghost deps = file_state@.dependencies;
            let ghost names = strings_view(agent_tag.dependencies@);
            let mut k: usize = 0;
            while k < file_state.dependencies.len()
                invariant
                    k <= file_state.dependencies@.len(),
                    deps == files_view(file_state.dependencies@),
                    names == strings_view(agent_tag.dependencies@),
                    (remove_script@, script_file_name@) == found_remove_script(deps, names, k as nat),
                decreases file_state.dependencies@.len() - k,
            {
                let dependency = &file_state.dependencies[k];
                assert(deps[k as int] == dependency@);
                let filename = dependency.filename();
                if str_eq(dependency.extension.as_str(), "cos") && contains_name(&agent_tag.dependencies, filename.as_str()) {
                    if let Some(s) = remove_script_in(dependency.data.as_slice()) {
                        remove_script = s;
                        script_file_name = filename;
                    }
                }
                k = k + 1;
            }
        }
    }
    (remove_script, script_file_name)
}

/// An agent with its remove script set to `remove_script`; any other block as it is.
pub open spec fn remove_script_set(b: BlockView, remove_script: Seq<char>) -> BlockView {
    match b {
        BlockView::Agent(a) => BlockView::Agent(AgentView { remove_script, ..a }),
        _ => b,
    }
}

/// The dialog shown once a remove script has been looked for: its title and text; where
/// none was found, a notice, else a question whether to replace the current one with the
/// one in the script file named.
pub open spec fn remove_script_dialog(remove_script: Seq<char>, script_file_name: Seq<char>) -> (Seq<char>, Seq<char>) {
    if remove_script.len() == 0 {
        ("Remove Script Not Found"@, "No remove script found in any of this tag's COS files."@)
    } else {
        ("Overwrite Remove Script"@, "Replace current remove script with the one in "@ + script_file_name + "?"@)
    }
}

/// The dialog shown once a remove script has been looked for: its title and text.
pub fn remove_script_prompt(remove_script: &str, script_file_name: &str) -> (r: (String, String))
    ensures
        (r.0@, r.1@) == remove_script_dialog(remove_script@, script_file_name@),
{
    if remove_script.unicode_len() == 0 {
        (to_owned("Remove Script Not Found"), to_owned("No remove script found in any of this tag's COS files."))
    } else {
        let mut text = to_owned("Replace current remove script with the one in ");
        push_str(&mut text, script_file_name);
        push_str(&mut text, "?");
        (to_owned("Overwrite Remove Script"), text)
    }
}

/// Sets the selected agent's remove script, recording the state first for undo; gives
/// whether it was set.
pub fn set_remove_script(file_state: &mut FileState, history: &mut HistoryState, remove_script: String) -> (r: bool)
    ensures
        final(history)@ == recorded(old(history)@, old(file_state)@),
        final(file_state)@ == (EditorStateView {
            tags: change_selected(old(file_state)@, |b: BlockView| remove_script_set(b, remove_script@)),
            ..touched(old(file_state)@)
        }),
        r == (selected_place(old(file_state)@) matches Some(i) && old(file_state)@.tags[i] is Agent),
{
    modify_file(file_state, history, true);
    let mut set = false;
    let ghost rs = remove_script@;
    if let Some(i) = selected_index(file_state) {
        let tag = &mut file_state.tags[i];
        if let Block::Agent(agent_tag) = tag {
            agent_tag.remove_script = remove_script;
            set = true;
        }
    }
    proof {
        assert(file_state@.tags =~= change_selected(old(file_state)@, |b: BlockView| remove_script_set(b, rs)));
    }
    set
}

/// Acts on the answer to the dialog shown once a remove script has been looked for:
/// where none was found (`remove_script` is empty) or the user did not confirm, nothing
/// changes; else the selected agent's remove script is set to it, as `set_remove_script`
/// does. Gives whether it was set.
pub fn apply_found_remove_script(file_state: &mut FileState, history: &mut HistoryState, remove_script: String, confirmed: bool) -> (r: bool)
    ensures
        remove_script@.len() == 0 || !confirmed ==> {
            &&& final(file_state)@ == old(file_state)@
            &&& final(history)@ == old(history)@
            &&& !r
        },
        remove_script@.len() > 0 && confirmed ==> {
            &&& final(history)@ == recorded(old(history)@, old(file_state)@)
            &&& final(file_state)@ == (EditorStateView {
                tags: change_selected(old(file_state)@, |b: BlockView| remove_script_set(b, remove_script@)),
                ..touched(old(file_state)@)
            })
            &&& r == (selected_place(old(file_state)@) matches Some(i) && old(file_state)@.tags[i] is Agent)
        },
{
    if remove_script.unicode_len() == 0 || !confirmed {
        false
    } else {
        set_remove_script(file_state, history, remove_script)
    }
}

} // verus!
