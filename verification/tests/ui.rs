use theist::agent::agent_tag::AgentTag;
use theist::agent::egg_tag::EggTag;
use theist::agent::file::{CreaturesFile, FileType, ScriptFile};
use theist::agent::tag::Tag;
use theist::ui::{Alert, Main, Selection};

fn script(name: &str) -> CreaturesFile {
    CreaturesFile::Script(ScriptFile {
        filetype: FileType::Script,
        output_filename: name.to_string(),
        input_filename: name.to_string(),
        data: None,
    })
}

#[test]
fn window_title() {
    let mut main = Main::new();
    assert_eq!(main.title(), "Theist");
    main.filename = "ball.the".to_string();
    assert_eq!(main.title(), "Theist - ball.the");
    main.modified = true;
    assert_eq!(main.title(), "Theist - ball.the*");
}

#[test]
fn alerts_are_kept_in_order() {
    let mut main = Main::new();
    main.add_alert(&"saved".to_string(), false);
    main.add_alert(&"broken".to_string(), true);
    assert!(matches!(&main.alerts[0], Alert::Update(m) if m == "saved"));
    assert!(matches!(&main.alerts[1], Alert::Error(m) if m == "broken"));
}

#[test]
fn selected_file_follows_tag_and_selection() {
    let mut main = Main::new();
    let mut agent = AgentTag::new();
    agent.scripts = vec![1, 0];
    let mut egg = EggTag::new();
    egg.genetics = vec![1];
    main.tags = vec![Tag::Agent(agent), Tag::Egg(egg)];
    main.files = vec![script("a.cos"), script("b.cos")];
    assert_eq!(main.get_selected_file_index(), None);
    main.selected_tag_index = Some(0);
    main.selection = Selection::Script(0);
    assert_eq!(main.get_selected_file_index(), Some(1));
    assert_eq!(main.get_selected_file().unwrap().get_output_filename(), "b.cos");
    main.selection = Selection::Script(2);
    assert_eq!(main.get_selected_file_index(), None);
    main.selection = Selection::Genetics(0);
    assert_eq!(main.get_selected_file_index(), None);
    main.selected_tag_index = Some(1);
    assert_eq!(main.get_selected_file_index(), Some(1));
    main.selected_tag_index = Some(5);
    assert!(main.get_selected_tag().is_none());
    main.selected_tag_index = Some(0);
    if let Some(Tag::Agent(a)) = main.get_selected_tag_mut() {
        a.name = "Renamed".to_string();
    }
    assert_eq!(main.get_selected_tag().unwrap().get_name(), "Renamed");
    main.selection = Selection::Script(1);
    if let Some(CreaturesFile::Script(s)) = main.get_selected_file_mut() {
        s.input_filename = "elsewhere.cos".to_string();
    }
    assert_eq!(main.files[0].get_input_filename(), "elsewhere.cos");
}
