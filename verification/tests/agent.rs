use theist::agent::agent_tag::{AgentTag, SupportedGame as AgentGame};
use theist::agent::background::{Background, BackgroundList};
use theist::agent::body_data::{BodyData, BodyDataList};
use theist::agent::egg_tag::EggTag;
use theist::agent::file::FileType;
use theist::agent::free_tag::FreeTag;
use theist::agent::script::{Script, ScriptList};
use theist::agent::tag::Tag;
use theist::agent::{Filename, SupportedGame};

#[test]
fn filename_splits_at_last_dot() {
    let f = Filename::new("my.agent.cos");
    assert_eq!(f.string, "my.agent.cos");
    assert_eq!(f.title, "my.agent");
    assert_eq!(f.extension, "cos");
    let g = Filename::new("..x");
    assert_eq!((g.title.as_str(), g.extension.as_str()), (".", "x"));
}

#[test]
fn filename_without_extension_is_empty() {
    for s in ["noext", ".cos", "trailing.", ""] {
        let f = Filename::new(s);
        assert_eq!(f.string, "", "{}", s);
        assert_eq!(f.title, "");
        assert_eq!(f.extension, "");
    }
}

#[test]
fn filename_with_trailing_dot_after_extension() {
    let f = Filename::new("a.b.");
    assert_eq!(f.title, "a");
    assert_eq!(f.extension, "b.");
}

#[test]
fn filename_from_captures() {
    let f = Filename::from_captures("x.y", Some("x".to_string()), Some("y".to_string()));
    assert_eq!((f.string.as_str(), f.title.as_str(), f.extension.as_str()), ("x.y", "x", "y"));
    let g = Filename::from_captures("x.y", None, Some("y".to_string()));
    assert_eq!(g.string, "");
}

#[test]
fn filename_set_title_and_with_extension() {
    let mut f = Filename::new("ball.c16");
    f.set_title("cube".to_string());
    assert_eq!(f.string, "cube.c16");
    assert_eq!(f.title, "cube");
    let g = f.with_extension("png");
    assert_eq!(g.string, "cube.png");
    assert_eq!(g.extension, "png");
    assert_eq!(f.to_string(), "cube.c16");
}

#[test]
fn supported_game_names() {
    assert_eq!(SupportedGame::new("c3"), SupportedGame::C3);
    assert_eq!(SupportedGame::new("C3"), SupportedGame::C3);
    assert_eq!(SupportedGame::new("DS"), SupportedGame::DS);
    assert_eq!(SupportedGame::new("Ds"), SupportedGame::C3DS);
    assert_eq!(SupportedGame::new("c3ds").to_string(), "c3ds");
    assert_eq!(SupportedGame::DS.to_string(), "ds");
}

#[test]
fn new_tags() {
    let a = AgentTag::new();
    assert_eq!(a.name, "Untitled Agent");
    assert!(a.supported_game == AgentGame::C3DS);
    let e = EggTag::new();
    assert_eq!(e.name, "Untitled Egg");
    assert!(e.genome.is_none());
    let f = FreeTag::new();
    assert_eq!(f.name, "Untitled Tag");
    assert_eq!(f.block_type, "");
}

#[test]
fn has_sprite() {
    let mut a = AgentTag::new();
    a.sprites = vec![3, 5];
    assert!(a.has_sprite(5));
    assert!(!a.has_sprite(4));
    let mut e = EggTag::new();
    e.sprites = vec![1];
    assert!(e.has_sprite(1));
    assert!(!e.has_sprite(0));
}

#[test]
fn tag_type_and_name() {
    let mut free = FreeTag::new();
    free.block_type = "GLST".to_string();
    assert_eq!(Tag::Free(free).get_type(), "GLST");
    assert_eq!(Tag::Agent(AgentTag::new()).get_type(), "agent");
    let egg = Tag::Egg(EggTag::new());
    assert_eq!(egg.get_type(), "egg");
    assert_eq!(egg.get_name(), "Untitled Egg");
}

#[test]
fn tag_file_lists() {
    let mut tag = Tag::Agent(AgentTag::new());
    assert!(tag.get_file_list(&FileType::Genetics).is_none());
    assert_eq!(tag.add_file(&FileType::Script, 4), Some(0));
    assert_eq!(tag.add_file(&FileType::Script, 7), Some(1));
    assert_eq!(tag.add_file(&FileType::Script, 9), Some(2));
    assert_eq!(tag.add_file(&FileType::BodyData, 1), None);
    assert!(tag.has_file(&FileType::Script, 7));
    assert!(!tag.has_file(&FileType::Sprite, 7));
    assert_eq!(tag.move_file_up(&FileType::Script, 2), 1);
    assert_eq!(tag.get_file_list(&FileType::Script).unwrap(), &vec![4, 9, 7]);
    assert_eq!(tag.move_file_down(&FileType::Script, 1), 2);
    assert_eq!(tag.get_file_list(&FileType::Script).unwrap(), &vec![4, 7, 9]);
    assert_eq!(tag.move_file_up(&FileType::Script, 0), 0);
    assert_eq!(tag.move_file_down(&FileType::Script, 2), 2);
    tag.remove_file(&FileType::Script, 0);
    assert_eq!(tag.get_file_list(&FileType::Script).unwrap(), &vec![7, 9]);
    if let Some(list) = tag.get_file_list_mut(&FileType::Sound) {
        list.push(11);
    }
    assert!(tag.has_file(&FileType::Sound, 11));
    let mut free = Tag::Free(FreeTag::new());
    assert!(!free.does_use_all_files());
    assert_eq!(free.move_file_up(&FileType::Script, 3), 3);
}

#[test]
fn scripts() {
    let mut s = Script::new("ball.cos", "ds");
    assert_eq!(s.get_filename(), "ball.cos");
    s.set_supported_game(1);
    match &s {
        Script::File { supported_game, .. } => assert_eq!(*supported_game, SupportedGame::C3),
    }
    s.set_supported_game(7);
    match &s {
        Script::File { supported_game, .. } => assert_eq!(*supported_game, SupportedGame::C3DS),
    }
}

#[test]
fn script_list_moves_and_back() {
    let mut list = ScriptList::new();
    assert!(list.is_empty());
    list.push(Script::new("a.cos", "c3"));
    list.push(Script::new("b.cos", "c3"));
    list.push(Script::new("c.cos", "c3"));
    assert_eq!(list.len(), 3);
    assert!(list.includes(&"b.cos".to_string()));
    assert!(!list.includes(&"d.cos".to_string()));
    list.move_up(2);
    let names: Vec<String> = list.iter().map(|s| s.get_filename()).collect();
    assert_eq!(names, vec!["a.cos", "c.cos", "b.cos"]);
    list.move_down(1);
    let names: Vec<String> = list.iter().map(|s| s.get_filename()).collect();
    assert_eq!(names, vec!["a.cos", "b.cos", "c.cos"]);
    list.move_up(0);
    list.move_down(2);
    list.remove(7);
    assert_eq!(list.len(), 3);
    list.remove(0);
    assert_eq!(list.get(0).unwrap().get_filename(), "b.cos");
    assert!(list.get(5).is_none());
    if let Some(s) = list.get_mut(1) {
        s.set_supported_game(2);
    }
}

#[test]
fn backgrounds() {
    let b = Background::new("room.blk");
    assert_eq!(b.get_filename(), "room.blk");
    assert_eq!(b.get_title(), "room");
    let p = Background::new("room.png");
    assert_eq!(p.get_filename(), "room.png");
    assert_eq!(p.get_title(), "room");
    match &p {
        Background::Png { filename, .. } => assert_eq!(filename.string, "room.blk"),
        _ => panic!("expected an image background"),
    }
    let mut list = BackgroundList::new();
    list.push(b);
    list.push(p);
    list.move_down(0);
    assert_eq!(list.get(0).unwrap().get_filename(), "room.png");
    list.move_up(1);
    assert_eq!(list.get(0).unwrap().get_filename(), "room.blk");
    list.remove(0);
    assert_eq!(list.len(), 1);
    assert!(!list.is_empty());
    assert_eq!(list.iter().count(), 1);
}

#[test]
fn background_names_read_back() {
    for name in ["a.blk", "my.room.png", "x.y"] {
        assert_eq!(Background::new(name).get_filename(), name);
    }
    assert_eq!(Background::new(".blk").get_filename(), "");
}

#[test]
fn body_data_list() {
    let mut list = BodyDataList::new();
    assert!(list.is_empty());
    list.push(BodyData::new("norn.att"));
    list.push(BodyData::new("ettin.att"));
    assert_eq!(list.len(), 2);
    assert!(list.includes(&"ettin.att".to_string()));
    assert!(!list.includes(&"grendel.att".to_string()));
    list.move_up(1);
    assert_eq!(list.get(0).unwrap().get_filename(), "ettin.att");
    list.move_down(0);
    assert_eq!(list.get(0).unwrap().get_filename(), "norn.att");
    list.remove(0);
    assert_eq!(list.len(), 1);
    assert_eq!(list.iter().count(), 1);
}
