use theist::agent::free_tag::FreeTag;
use theist::source::decode::parse_tokens;
use theist::source::free_tag::{decode, encode};

#[test]
fn tokens_split_on_spaces() {
    assert_eq!(parse_tokens("agent  \"My Agent\" c3 ds"), vec!["agent", "My Agent", "c3", "ds"]);
}

#[test]
fn tokens_with_escapes_tabs_and_returns() {
    assert_eq!(parse_tokens("\tdescription \"say \\\"hi\\\"\"\r"), vec!["description", "say \"hi\""]);
    assert_eq!(parse_tokens("a\\ b c"), vec!["a b", "c"]);
    assert_eq!(parse_tokens(""), Vec::<String>::new());
    assert_eq!(parse_tokens("   "), Vec::<String>::new());
    assert_eq!(parse_tokens("\"\""), Vec::<String>::new());
    assert_eq!(parse_tokens("\"open quote"), vec!["open quote"]);
}

#[test]
fn free_tag_encoding() {
    let tag = FreeTag {
        name: "Info".to_string(),
        version: "1.0".to_string(),
        block_type: "GLST".to_string(),
        contents: "hello\n".to_string(),
    };
    assert_eq!(encode(&tag), "other \"Info\" GLST\n\tversion \"1.0\"\n\"\"\"hello\n\"\"\"\n");
    let plain = FreeTag { version: String::new(), ..tag };
    assert_eq!(encode(&plain), "other \"Info\" GLST\n\"\"\"hello\n\"\"\"\n");
}

#[test]
fn free_tag_decoding() {
    let lines = vec!["other \"Info\" GLST", "\tversion \"2\"", "  \"\"\"  ", "line one", "line two", "\"\"\"", "agent \"x\""];
    let (tag, used) = decode(lines, "Info".to_string(), "GLST".to_string());
    assert_eq!(tag.name, "Info");
    assert_eq!(tag.block_type, "GLST");
    assert_eq!(tag.version, "2");
    assert_eq!(tag.contents, "line one\nline two\n");
    assert_eq!(used, 5);
}

#[test]
fn free_tag_decoding_stops_at_other_lines() {
    let (tag, used) = decode(vec!["other x", "agent \"y\""], "x".to_string(), String::new());
    assert_eq!(tag.contents, "");
    assert_eq!(used, 1);
    let (tag, used) = decode(vec!["other x"], "x".to_string(), String::new());
    assert_eq!(tag.version, "");
    assert_eq!(used, 1);
}

#[test]
fn free_tag_source_does_not_read_back_its_contents() {
    let tag = FreeTag { name: "T".to_string(), version: String::new(), block_type: "B".to_string(), contents: "abc\n".to_string() };
    let text = encode(&tag);
    let lines: Vec<&str> = text.lines().collect();
    let (back, _) = decode(lines, "T".to_string(), "B".to_string());
    assert_eq!(back.contents, "");
}

const BALL_SOURCE: &str = "agent \"Bouncy Ball\" c3\n\tversion \"1.0\"\n\tdescription \"A ball\"\n\tremovescript auto\n\tpreview \"ball.c16\" \"0\"\n\tuse \"ball.cos\" \"ball.c16\"\n\nfiles\n\tscript \"ball.cos\"\n\tsprite \"ball.c16\"\n";

#[test]
fn source_decodes_tags_and_files() {
    let result = theist::source::decode::decode(BALL_SOURCE).unwrap();
    assert_eq!(result.files.len(), 2);
    assert_eq!(result.files[0].get_output_filename(), "ball.cos");
    assert_eq!(result.files[1].get_output_filename(), "ball.c16");
    assert!(result.files[1].get_data().is_none());
    assert_eq!(result.tags.len(), 1);
    match &result.tags[0] {
        theist::agent::tag::Tag::Agent(a) => {
            assert_eq!(a.name, "Bouncy Ball");
            assert_eq!(a.version, "1.0");
            assert_eq!(a.description, "A ball");
            assert_eq!(a.supported_game, theist::agent::agent_tag::SupportedGame::C3);
            assert!(matches!(a.remove_script, theist::agent::agent_tag::RemoveScript::Auto));
            assert!(matches!(&a.preview, theist::agent::agent_tag::Preview::Manual { sprite: 1, animation } if animation == "0"));
            assert_eq!(a.scripts, vec![0]);
            assert_eq!(a.sprites, vec![1]);
        },
        _ => panic!("expected an agent"),
    }
}

#[test]
fn source_encodes_files_by_kind_then_name() {
    let result = theist::source::decode::decode(BALL_SOURCE).unwrap();
    let text = theist::source::encode::encode(&result.tags, &result.files).unwrap();
    assert_eq!(
        text,
        "agent \"Bouncy Ball\" c3\n\tversion \"1.0\"\n\tdescription \"A ball\"\n\tremovescript auto\n\tpreview \"ball.c16\" \"0\"\n\tuse all\n\nfiles\n\tscript \"ball.cos\"\n\tsprite \"ball.c16\"\n"
    );
}

#[test]
fn source_files_section_details() {
    let lines = vec![
        "\tsprite \"anim.c16\"",
        "\t\tframe \"a.png\"",
        "\t\tframe \"b.png\"",
        "\t\tframe \"a.png\"",
        "\tcatalogue \"help.catalogue\"",
        "\t\tentry \"2 21 1000\" \"Ball\" \"A \\\"ball\\\"\"",
        "\tsound \"pop.wav\"",
        "\t\tsource \"sounds/pop.wav\"",
        "agent \"next\"",
    ];
    let (files, used) = theist::source::file::decode(lines);
    assert_eq!(used, 8);
    assert_eq!(files.len(), 3);
    match &files[0] {
        theist::agent::file::CreaturesFile::Sprite(theist::agent::sprite::Sprite::Png { input_filename, frames, .. }) => {
            assert_eq!(input_filename, "a.png");
            assert_eq!(frames.len(), 2);
            assert_eq!(frames[1].input_filename, "b.png");
        },
        _ => panic!("expected a sprite of frames"),
    }
    match &files[1] {
        theist::agent::file::CreaturesFile::Catalogue(theist::agent::catalogue::Catalogue::Inline { entries, .. }) => {
            assert_eq!(entries.len(), 1);
            assert_eq!(entries[0].classifier, "2 21 1000");
            assert_eq!(entries[0].description, "A \"ball\"");
        },
        _ => panic!("expected a written-out catalogue"),
    }
    assert_eq!(files[2].get_input_filename(), "sounds/pop.wav");
}

#[test]
fn egg_source_round_trip() {
    let text = "egg \"Norn\"\n\tpreview \"m.c16\" \"f.c16\" \"1\"\n\tgenome \"norn\"\n\tuse all\n\nfiles\n\tsprite \"m.c16\"\n\tsprite \"f.c16\"\n\tgenome \"norn.gen\"\n";
    let result = theist::source::decode::decode(text).unwrap();
    match &result.tags[0] {
        theist::agent::tag::Tag::Egg(e) => {
            assert_eq!(e.genome, Some(2));
            assert_eq!(e.sprites, vec![0, 1]);
            assert_eq!(e.genetics, vec![2, 2]);
            assert!(e.use_all_files);
        },
        _ => panic!("expected an egg"),
    }
    let encoded = theist::source::egg_tag::encode(
        match &result.tags[0] {
            theist::agent::tag::Tag::Egg(e) => e,
            _ => panic!("expected an egg"),
        },
        &result.files,
    );
    assert_eq!(encoded, "egg \"Norn\"\n\tpreview \"m.c16\" \"f.c16\" \"1\"\n\tgenome \"norn\"\n\tuse \"m.c16\"\n\tuse \"f.c16\"\n\n");
}

#[test]
fn tag_word_after_last_line_free_tag() {
    assert!(theist::source::decode::decode_checked("other \"x\" y other \"z\"").is_none());
    assert!(theist::source::decode::decode_checked("other \"x\" y").is_some());
}
