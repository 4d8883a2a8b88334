use theist::editor::config::{config_file_contents, set_theme, theme_settings, ConfigState, Theme};
use theist::editor::dependency::{
    add_dependency_from_path, check_dependencies_for_tag, check_dependency, name_dependency, push_dependency,
    reload_dependencies, reload_notice, reload_path, reload_prompt, remove_dependency, remove_missing_dependencies,
    set_dependency_data, sort_dependencies, ReloadPath,
};
use theist::editor::file::{is_agent_file, load_file, modify_file, new_file, update_title, FileState};
use theist::editor::history::{redo, undo, HistoryState};
use theist::editor::tag::{add_agent_tag, add_egg_tag, add_gb_tag, duplicate_tag, remove_tag, select_tag};
use theist::editor::tag_info::{apply_found_remove_script, remove_script_prompt};
use theist::editor::tag_info::{
    add_description, find_remove_script, remove_description, set_remove_script, update_description_language,
    update_description_text, update_prop_int, update_prop_str,
};
use theist::error::Error;
use theist::format::agent_block::{GameSupport, Language};
use theist::format::egg_block::Egg;
use theist::format::file_block::File;
use theist::format::pray::Block;

fn file(name: &str, extension: &str, data: &[u8]) -> File {
    File { name: name.to_string(), extension: extension.to_string(), data: data.to_vec(), is_checked: false }
}

fn names(deps: &[File]) -> Vec<String> {
    deps.iter().map(|d| d.filename()).collect()
}

fn tag_name(b: &Block) -> String {
    match b {
        Block::Agent(a) => a.name.clone(),
        Block::Egg(e) => e.name.clone(),
        Block::GardenBox(g) => g.name.clone(),
        Block::Generic(g) => g.name.clone(),
        Block::File(f) => f.filename(),
    }
}

#[test]
fn dependencies_sort_by_kind_then_name() {
    let mut deps = vec![
        file("zeta", "wav", b""),
        file("alpha", "c16", b""),
        file("beta", "cos", b""),
        file("alpha", "cos", b""),
        file("x", "txt", b""),
        file("m", "gen", b""),
    ];
    sort_dependencies(&mut deps);
    assert_eq!(names(&deps), vec!["alpha.cos", "beta.cos", "m.gen", "alpha.c16", "zeta.wav", "x.txt"]);
}

#[test]
fn undo_restores_the_state_before_a_change_and_redo_repeats_it() {
    let mut fs = FileState::new();
    let mut h = HistoryState::new();
    add_agent_tag(&mut fs, &mut h);
    assert_eq!(fs.tags.len(), 1);
    assert!(fs.is_modified);
    update_prop_str(&mut fs, &mut h, "name", "Ball");
    assert_eq!(tag_name(&fs.tags[0]), "Ball");
    undo(&mut fs, &mut h);
    assert_eq!(tag_name(&fs.tags[0]), "Agent");
    undo(&mut fs, &mut h);
    assert_eq!(fs.tags.len(), 0);
    assert!(fs.is_modified);
    undo(&mut fs, &mut h);
    assert_eq!(fs.tags.len(), 0);
    redo(&mut fs, &mut h);
    assert_eq!(fs.tags.len(), 1);
    redo(&mut fs, &mut h);
    assert_eq!(tag_name(&fs.tags[0]), "Ball");
    assert_eq!(h.redo_stack.len(), 0);
    assert_eq!(h.undo_stack.len(), 2);
}

#[test]
fn a_change_after_undo_forgets_the_redo() {
    let mut fs = FileState::new();
    let mut h = HistoryState::new();
    add_egg_tag(&mut fs, &mut h);
    undo(&mut fs, &mut h);
    assert_eq!(h.redo_stack.len(), 1);
    modify_file(&mut fs, &mut h, true);
    assert_eq!(h.redo_stack.len(), 0);
}

#[test]
fn tags_are_added_duplicated_and_removed() {
    let mut fs = FileState::new();
    let mut h = HistoryState::new();
    assert_eq!(add_agent_tag(&mut fs, &mut h), 0);
    assert_eq!(add_gb_tag(&mut fs, &mut h), 1);
    assert_eq!(fs.selected_tag, Some(1));
    match &fs.tags[1] {
        Block::GardenBox(g) => assert_eq!(g.category, 1),
        _ => panic!("expected a garden box item"),
    }
    select_tag(&mut fs, 0).unwrap();
    assert_eq!(duplicate_tag(&mut fs, &mut h), Some(1));
    assert_eq!(tag_name(&fs.tags[1]), "Agent Copy");
    assert_eq!(fs.tags.len(), 3);
    assert!(select_tag(&mut fs, 9).is_none());
    let (selected, _) = remove_tag(&mut fs, &mut h).unwrap();
    assert_eq!(selected, 0);
    assert_eq!(fs.tags.len(), 2);
    assert_eq!(fs.selected_tag, Some(0));
    remove_tag(&mut fs, &mut h).unwrap();
    let (selected, checked) = remove_tag(&mut fs, &mut h).unwrap();
    assert_eq!(selected, 0);
    assert!(checked.is_none());
    assert_eq!(fs.selected_tag, None);
    assert!(remove_tag(&mut fs, &mut h).is_none());
}

#[test]
fn checking_dependencies_for_a_tag() {
    let mut deps = vec![file("a", "c16", b""), file("b", "cos", b""), file("a", "c16", b"")];
    let egg = Egg {
        name: "E".to_string(),
        genetics_file: String::new(),
        genetics_file_mother: String::new(),
        genetics_file_father: String::new(),
        sprite_file_male: String::new(),
        sprite_file_female: String::new(),
        animation_string: String::new(),
        dependencies: vec!["a.c16".to_string(), "missing.wav".to_string()],
    };
    let checked = check_dependencies_for_tag(&Block::Egg(egg), &mut deps);
    assert_eq!(checked, vec![0, 2]);
    assert!(deps[0].is_checked && !deps[1].is_checked && deps[2].is_checked);
}

#[test]
fn adding_a_dependency() {
    let mut fs = FileState::new();
    let mut h = HistoryState::new();
    add_agent_tag(&mut fs, &mut h);
    let plan = add_dependency_from_path(&mut fs, &mut h, "/home/x/Ball.COS").unwrap();
    let (name, ext) = plan.unwrap();
    assert_eq!((name.as_str(), ext.as_str()), ("Ball", "cos"));
    push_dependency(&mut fs, File { name, extension: ext, data: b"inst".to_vec(), is_checked: true });
    let checked = name_dependency(&mut fs, "Ball.cos".to_string()).unwrap();
    assert_eq!(checked, vec![0]);
    assert!(fs.dependencies[0].is_checked);
    assert!(add_dependency_from_path(&mut fs, &mut h, "other/Ball.cos").unwrap().is_none());
    match add_dependency_from_path(&mut fs, &mut h, "notes.txt") {
        Err(Error::Other(m)) => assert_eq!(m, "\"notes.txt\" is not a supported file type"),
        _ => panic!("expected an error"),
    }
}

#[test]
fn checking_and_removing_dependencies() {
    let mut fs = FileState::new();
    let mut h = HistoryState::new();
    add_egg_tag(&mut fs, &mut h);
    fs.dependencies = vec![file("n", "gen", b""), file("m", "c16", b""), file("w", "wav", b"")];
    check_dependency(&mut fs, &mut h, vec![0, 2]);
    match &fs.tags[0] {
        Block::Egg(e) => assert_eq!(e.dependencies, vec!["n.gen".to_string(), "w.wav".to_string()]),
        _ => panic!("expected an egg"),
    }
    update_prop_str(&mut fs, &mut h, "genetics_file", "n.gen");
    update_prop_str(&mut fs, &mut h, "sprite_file_male", "m.c16");
    remove_dependency(&mut fs, &mut h, &vec![1]);
    assert_eq!(names(&fs.dependencies), vec!["n.gen", "w.wav"]);
    match &fs.tags[0] {
        Block::Egg(e) => {
            assert_eq!(e.genetics_file, "n.gen");
            assert_eq!(e.sprite_file_male, "");
        },
        _ => panic!("expected an egg"),
    }
    set_dependency_data(&mut fs, 1, b"RIFF".to_vec());
    assert_eq!(fs.dependencies[1].data, b"RIFF".to_vec());
    set_dependency_data(&mut fs, 9, Vec::new());
    let mut tags = fs.tags;
    remove_missing_dependencies(&mut tags, &[]);
    match &tags[0] {
        Block::Egg(e) => assert_eq!(e.genetics_file, ""),
        _ => panic!("expected an egg"),
    }
}

#[test]
fn agent_properties_and_descriptions() {
    let mut fs = FileState::new();
    let mut h = HistoryState::new();
    add_agent_tag(&mut fs, &mut h);
    assert!(!update_prop_str(&mut fs, &mut h, "web_url", "http://x"));
    assert!(update_prop_str(&mut fs, &mut h, "game_support", "Creatures3"));
    assert!(!update_prop_str(&mut fs, &mut h, "game_support", "Creatures4"));
    update_prop_int(&mut fs, &mut h, "bioenergy", 42);
    update_prop_int(&mut fs, &mut h, "category", 3);
    assert!(add_description(&mut fs, &mut h));
    assert!(add_description(&mut fs, &mut h));
    update_description_language(&mut fs, &mut h, 1, "Dutch");
    update_description_language(&mut fs, &mut h, 0, "Klingon");
    update_description_text(&mut fs, &mut h, 2, "Hallo");
    match &fs.tags[0] {
        Block::Agent(a) => {
            assert_eq!(a.web_url, "http://x");
            assert_eq!(a.game_support, GameSupport::Creatures3);
            assert_eq!(a.bioenergy, 42);
            assert_eq!(a.descriptions.len(), 3);
            assert_eq!(a.descriptions[0].language, Language::English);
            assert_eq!(a.descriptions[1].language, Language::Dutch);
            assert_eq!(a.descriptions[2].language, Language::French);
            assert_eq!(a.descriptions[2].text, "Hallo");
        },
        _ => panic!("expected an agent"),
    }
    assert!(remove_description(&mut fs, &mut h, 0));
    match &fs.tags[0] {
        Block::Agent(a) => assert_eq!(a.descriptions.len(), 2),
        _ => panic!("expected an agent"),
    }
}

#[test]
fn remove_script_is_found_in_scripts() {
    let mut fs = FileState::new();
    let mut h = HistoryState::new();
    add_agent_tag(&mut fs, &mut h);
    fs.dependencies = vec![
        file("ball", "cos", b"inst\nnew: simp 2 21 1000 \"ball\" 1 0 0\n\nrscr\n  * remove the balls\nenum 2 21 1000\n  kill targ\nnext\n"),
    ];
    let (none, from) = find_remove_script(&fs);
    assert_eq!((none.as_str(), from.as_str()), ("", ""));
    check_dependency(&mut fs, &mut h, vec![0]);
    let (script, from) = find_remove_script(&fs);
    assert_eq!(script, "enum 2 21 1000 kill targ next");
    assert_eq!(from, "ball.cos");
    assert!(set_remove_script(&mut fs, &mut h, script));
    match &fs.tags[0] {
        Block::Agent(a) => assert_eq!(a.remove_script, "enum 2 21 1000 kill targ next"),
        _ => panic!("expected an agent"),
    }
}

#[test]
fn opening_a_file() {
    let mut fs = FileState::new();
    let mut h = HistoryState::new();
    add_agent_tag(&mut fs, &mut h);
    let egg = Egg {
        name: "E".to_string(),
        genetics_file: String::new(),
        genetics_file_mother: String::new(),
        genetics_file_father: String::new(),
        sprite_file_male: String::new(),
        sprite_file_female: String::new(),
        animation_string: String::new(),
        dependencies: vec!["b.wav".to_string()],
    };
    let blocks = vec![Block::File(file("b", "wav", b"")), Block::Egg(egg), Block::File(file("a", "cos", b""))];
    load_file(&mut fs, &mut h, "/x/ball.agents".to_string(), blocks);
    assert_eq!(fs.tags.len(), 1);
    assert_eq!(fs.selected_tag, Some(0));
    assert_eq!(names(&fs.dependencies), vec!["a.cos", "b.wav"]);
    assert!(!fs.dependencies[0].is_checked && fs.dependencies[1].is_checked);
    assert!(!fs.is_modified);
    assert_eq!(h.undo_stack.len(), 0);
    assert_eq!(update_title(&fs), "ball - Theist");
    modify_file(&mut fs, &mut h, false);
    assert_eq!(update_title(&fs), "*ball - Theist");
    new_file(&mut fs, &mut h);
    assert_eq!(update_title(&fs), "Theist");
    modify_file(&mut fs, &mut h, false);
    assert_eq!(update_title(&fs), "*Untitled - Theist");
}

#[test]
fn dropped_files() {
    assert!(is_agent_file("x/y.AGENTS"));
    assert!(is_agent_file("y.agent"));
    assert!(!is_agent_file("y.cos"));
}

#[test]
fn theme_settings_file() {
    let mut c = ConfigState { theme: Theme::Dark };
    set_theme(&mut c, "purple");
    assert_eq!(c.theme, Theme::Purple);
    let text = config_file_contents(&c);
    assert_eq!(text, "theme: purple");
    assert_eq!(theme_settings(&text), vec!["purple".to_string()]);
    assert_eq!(theme_settings("x: 1\n theme : light \ntheme:dark:extra\nnothing"), vec!["light".to_string(), "dark".to_string()]);
    set_theme(&mut c, "unknown");
    assert_eq!(c.theme, Theme::Dark);
    assert_eq!(Theme::Light.to_string(), "light");
}

#[test]
fn remove_script_dialogs() {
    assert_eq!(
        remove_script_prompt("", ""),
        ("Remove Script Not Found".to_string(), "No remove script found in any of this tag's COS files.".to_string())
    );
    assert_eq!(
        remove_script_prompt("kill targ", "ball.cos"),
        ("Overwrite Remove Script".to_string(), "Replace current remove script with the one in ball.cos?".to_string())
    );
}

#[test]
fn sorting_keeps_the_order_of_equal_keys() {
    let mut deps = vec![file("b", "wav", b"1"), file("a", "cos", b""), file("b", "wav", b"2"), file("b", "wav", b"3")];
    sort_dependencies(&mut deps);
    let data: Vec<Vec<u8>> = deps.iter().map(|d| d.data.clone()).collect();
    assert_eq!(data, vec![b"".to_vec(), b"1".to_vec(), b"2".to_vec(), b"3".to_vec()]);
}

#[test]
fn an_empty_or_refused_remove_script_changes_nothing() {
    let mut fs = FileState::new();
    let mut h = HistoryState::new();
    add_agent_tag(&mut fs, &mut h);
    let mut fresh = HistoryState::new();
    fs.is_modified = false;
    assert!(!apply_found_remove_script(&mut fs, &mut fresh, String::new(), true));
    assert!(!fs.is_modified);
    assert_eq!(fresh.undo_stack.len(), 0);
    assert!(!apply_found_remove_script(&mut fs, &mut fresh, "kill targ".to_string(), false));
    assert!(!fs.is_modified);
    assert!(apply_found_remove_script(&mut fs, &mut fresh, "kill targ".to_string(), true));
    assert!(fs.is_modified);
    assert_eq!(fresh.undo_stack.len(), 1);
    match &fs.tags[0] {
        Block::Agent(a) => assert_eq!(a.remove_script, "kill targ"),
        _ => panic!("expected an agent"),
    }
}

#[test]
fn reloading_dependencies() {
    assert!(matches!(reload_path(true, true), Some(ReloadPath::Long)));
    assert!(matches!(reload_path(false, true), Some(ReloadPath::Short)));
    assert!(reload_path(false, false).is_none());
    let deps = vec![file("a", "cos", b"x"), file("b", "wav", b"y"), file("c", "c16", b"z")];
    match reload_prompt(&deps, &[1], false) {
        Err(Error::Other(m)) => assert_eq!(m, "Agent file must be saved before reloading dependencies."),
        _ => panic!("expected an error"),
    }
    let (title, text) = reload_prompt(&deps, &[1], true).unwrap();
    assert_eq!(title, "Reload Dependency");
    assert_eq!(text, "Replace \"b.wav\" in agent with version from disk?");
    let (_, text) = reload_prompt(&deps, &[7], true).unwrap();
    assert_eq!(text, "Replace \"?\" in agent with version from disk?");
    let (title, text) = reload_prompt(&deps, &[0, 2], true).unwrap();
    assert_eq!(title, "Reload Dependencies");
    assert_eq!(text, "Replace 2 dependencies in agent with versions from disk?");
    assert_eq!(reload_notice(1), "Dependency reloaded");
    assert_eq!(reload_notice(3), "Dependencies reloaded");

    let mut fs = FileState::new();
    let mut h = HistoryState::new();
    fs.dependencies = deps;
    reload_dependencies(&mut fs, &mut h, vec![None, Some(b"RIFF".to_vec()), Some(Vec::new()), Some(b"extra".to_vec())]);
    assert!(fs.is_modified);
    assert_eq!(fs.dependencies.len(), 3);
    assert_eq!(fs.dependencies[0].data, b"x".to_vec());
    assert_eq!(fs.dependencies[1].data, b"RIFF".to_vec());
    assert_eq!(fs.dependencies[2].data, Vec::<u8>::new());
    undo(&mut fs, &mut h);
    assert_eq!(fs.dependencies[1].data, b"y".to_vec());
}
