use theist::agent::agent_tag::{AgentTag, Preview, RemoveScript, SupportedGame};
use theist::agent::egg_tag::{EggPreview, EggTag};
use theist::agent::file::{CreaturesFile, FileType, ScriptFile};
use theist::agent::free_tag::FreeTag;
use theist::agent::split::split_tags;
use theist::agent::sprite::Sprite;
use theist::agent::tag::Tag;
use theist::buffer::ByteReader;
use theist::error::Error;
use theist::pray::compile::compile;
use theist::pray::decompile::{decompile, decompile_checked, is_readable};
use theist::pray::file_block::{read_file_block, write_file_block};
use theist::pray::free_block::{read_free_block, write_free_block};
use theist::pray::helper::{read_block_header, read_string, write_block_header};
use theist::pray::info_block::{read_info_block, write_info_block, InfoValue, IntValue, StrValue};

const SCRIPT: &str = "inst\nrscr\nenum 2 5 0\n  * kill it\nkill targ\nnext\n";

fn script_file(name: &str, text: &str) -> CreaturesFile {
    CreaturesFile::Script(ScriptFile {
        filetype: FileType::Script,
        output_filename: name.to_string(),
        input_filename: name.to_string(),
        data: Some(text.as_bytes().to_vec()),
    })
}

fn sprite_file(name: &str, data: &[u8]) -> CreaturesFile {
    CreaturesFile::Sprite(Sprite::Raw {
        filetype: FileType::Sprite,
        output_filename: name.to_string(),
        input_filename: name.to_string(),
        data: Some(data.to_vec()),
    })
}

/// A C16 file of one image, two pixels wide and one high: red, then blue.
fn c16_data() -> Vec<u8> {
    let mut v = vec![2, 0, 0, 0, 1, 0];
    v.extend_from_slice(&[14, 0, 0, 0, 2, 0, 1, 0]);
    v.extend_from_slice(&[5, 0, 0x00, 0x7c, 0x1f, 0x00]);
    v
}

fn sound_file(name: &str, data: &[u8]) -> CreaturesFile {
    CreaturesFile::Sound(theist::agent::sound::Sound {
        output_filename: name.to_string(),
        input_filename: name.to_string(),
        data: Some(data.to_vec()),
    })
}

fn ball_agent(game: SupportedGame) -> AgentTag {
    AgentTag {
        name: "Bouncy Ball".to_string(),
        version: "1.0".to_string(),
        description: "A ball".to_string(),
        supported_game: game,
        remove_script: RemoveScript::Auto,
        preview: Preview::Manual { sprite: 1, animation: "0".to_string() },
        remove_script_backup: RemoveScript::Unset,
        preview_backup: Preview::Unset,
        scripts: vec![0],
        sprites: vec![1],
        sounds: vec![],
        catalogues: vec![],
        use_all_files: false,
    }
}

#[test]
fn strings_are_cut_padded_and_filtered() {
    let mut reader = ByteReader::new(&[b'a', 0, 0xC3, b'b', b'c']);
    assert_eq!(read_string(&mut reader, 4), "ab");
    assert_eq!(reader.len(), 1);
}

#[test]
fn compiled_header_round_trip() {
    let bytes = write_block_header("AGNT", "Ball", 7);
    assert_eq!(bytes.len(), 144);
    assert_eq!(&bytes[0..4], b"AGNT");
    assert_eq!(&bytes[4..9], b"Ball\0");
    assert_eq!(&bytes[132..144], &[7, 0, 0, 0, 7, 0, 0, 0, 0, 0, 0, 0]);
    let mut reader = ByteReader::new(&bytes);
    let header = read_block_header(&mut reader);
    assert_eq!(header.block_type, "AGNT");
    assert_eq!(header.name, "Ball");
    assert_eq!(header.size, 7);
    assert_eq!(header.size_uncompressed, 7);
    assert!(!header.is_compressed);
}

#[test]
fn info_block_later_value_wins() {
    let bytes = write_info_block(
        vec![IntValue("Agent Type".to_string(), 0), IntValue("Same".to_string(), 5)],
        vec![StrValue("Agent Description".to_string(), "hi".to_string()), StrValue("Same".to_string(), "text".to_string())],
    );
    assert_eq!(&bytes[0..4], &[2, 0, 0, 0]);
    let mut reader = ByteReader::new(&bytes);
    let info = read_info_block(&mut reader);
    assert!(reader.is_empty());
    assert_eq!(info.len(), 3);
    assert_eq!(info[0].0, "Agent Type");
    assert!(matches!(info[0].1, InfoValue::Int(0)));
    assert_eq!(info[1].0, "Same");
    assert!(matches!(&info[1].1, InfoValue::Str(s) if s == "text"));
    assert_eq!(info[2].0, "Agent Description");
}

#[test]
fn free_blocks() {
    let tag = FreeTag {
        name: "Notes".to_string(),
        version: String::new(),
        block_type: "glst".to_string(),
        contents: "abc".to_string(),
    };
    let bytes = write_free_block(&tag, &[]).unwrap();
    assert_eq!(&bytes[0..4], b"GLST");
    assert_eq!(&bytes[144..], b"abc");
    match read_free_block(b"abc", &"GLST".to_string(), &"Notes".to_string()).unwrap() {
        Tag::Free(t) => {
            assert_eq!(t.name, "Notes");
            assert_eq!(t.block_type, "GLST");
            assert_eq!(t.contents, "abc");
        },
        _ => panic!("expected a free tag"),
    }
    assert!(matches!(read_free_block(&[0xFF], &"GLST".to_string(), &"N".to_string()), Err(Error::InvalidUtf8)));
}

#[test]
fn file_blocks() {
    let bytes = write_file_block(&sprite_file("ball.c16", &[1, 2, 3])).unwrap();
    assert_eq!(&bytes[0..4], b"FILE");
    assert_eq!(&bytes[144..], &[1, 2, 3]);
    let missing = CreaturesFile::Sprite(Sprite::Raw {
        filetype: FileType::Sprite,
        output_filename: "gone.s16".to_string(),
        input_filename: "gone.s16".to_string(),
        data: None,
    });
    match write_file_block(&missing) {
        Err(Error::Other(m)) => assert_eq!(m, "Unable to find data for file gone.s16."),
        _ => panic!("expected an error"),
    }
    let files = read_file_block(&[9, 9], &"sounds/pop.wav".to_string(), false).unwrap();
    assert_eq!(files.len(), 1);
    assert_eq!(files[0].get_output_filename(), "pop.wav");
    assert_eq!(files[0].get_filetype(), FileType::Sound);
    match read_file_block(&[1], &"readme.txt".to_string(), false) {
        Err(Error::Other(m)) => assert_eq!(m, "File block readme.txt is not a valid creatures file type."),
        _ => panic!("expected an error"),
    }
}

#[test]
fn compile_then_decompile() {
    let tags = vec![Tag::Agent(ball_agent(SupportedGame::C3))];
    let files = vec![script_file("ball.cos", SCRIPT), sprite_file("ball.c16", &c16_data())];
    let bytes = compile(&tags, &files).unwrap();
    assert_eq!(&bytes[0..4], b"PRAY");
    assert_eq!(&bytes[4..8], b"AGNT");
    assert!(is_readable(&bytes));
    let result = decompile(&bytes, false).unwrap();
    assert_eq!(result.files.len(), 2);
    assert_eq!(result.files[0].get_output_filename(), "ball.c16");
    assert_eq!(result.files[0].get_data().unwrap(), c16_data());
    assert_eq!(result.files[1].get_output_filename(), "Bouncy Ball script.cos");
    assert_eq!(result.files[1].get_data().unwrap(), SCRIPT.as_bytes().to_vec());
    assert_eq!(result.tags.len(), 1);
    match &result.tags[0] {
        Tag::Agent(a) => {
            assert_eq!(a.name, "Bouncy Ball");
            assert_eq!(a.description, "A ball");
            assert_eq!(a.supported_game, SupportedGame::C3);
            assert_eq!(a.scripts, vec![1]);
            assert_eq!(a.sprites, vec![0]);
            assert!(matches!(&a.remove_script, RemoveScript::Manual(s) if s == "enum 2 5 0 kill targ next"));
            assert!(matches!(&a.preview, Preview::Manual { sprite: 0, animation } if animation == "0"));
        },
        _ => panic!("expected an agent"),
    }
}

#[test]
fn compile_faults() {
    let tags = vec![Tag::Agent(ball_agent(SupportedGame::DS))];
    let bad_text = vec![
        CreaturesFile::Script(ScriptFile {
            filetype: FileType::Script,
            output_filename: "ball.cos".to_string(),
            input_filename: "ball.cos".to_string(),
            data: Some(vec![0xFF, 0xFE]),
        }),
        sprite_file("ball.c16", &[1]),
    ];
    assert!(matches!(compile(&tags, &bad_text), Err(Error::InvalidUtf8)));
    let no_sprite_data = vec![
        script_file("ball.cos", SCRIPT),
        CreaturesFile::Sprite(Sprite::Raw {
            filetype: FileType::Sprite,
            output_filename: "ball.c16".to_string(),
            input_filename: "ball.c16".to_string(),
            data: None,
        }),
    ];
    match compile(&tags, &no_sprite_data) {
        Err(Error::Other(m)) => assert_eq!(m, "Unable to find data for file ball.c16."),
        _ => panic!("expected an error"),
    }
}

#[test]
fn egg_compiles_and_reads_back() {
    let egg = EggTag {
        name: "Norn Egg".to_string(),
        version: String::new(),
        preview: EggPreview::Manual { sprite_male: 0, sprite_female: 1, animation: "1".to_string() },
        genome: Some(2),
        preview_backup: EggPreview::Unset,
        sprites: vec![0, 1],
        bodydata: vec![],
        genetics: vec![2],
        use_all_files: false,
    };
    let files = vec![
        sprite_file("male.c16", &c16_data()),
        sprite_file("female.c16", &c16_data()),
        CreaturesFile::Genetics(theist::agent::genetics::Genetics {
            filetype: FileType::Genetics,
            output_filename: "norn.gen".to_string(),
            input_filename: "norn.gen".to_string(),
            data: Some(vec![3]),
        }),
    ];
    let bytes = compile(&vec![Tag::Egg(egg)], &files).unwrap();
    assert_eq!(&bytes[4..8], b"EGGS");
    let result = decompile(&bytes, false).unwrap();
    assert_eq!(result.files.len(), 3);
    match &result.tags[0] {
        Tag::Egg(e) => {
            assert_eq!(e.name, "Norn Egg");
            assert_eq!(e.genome, Some(2));
            assert_eq!(e.genetics, vec![2]);
            assert!(matches!(&e.preview, EggPreview::Manual { sprite_male: 1, sprite_female: 0, animation } if animation == "1"));
        },
        _ => panic!("expected an egg"),
    }
}

#[test]
fn decompile_faults() {
    assert_eq!(decompile(b"PR", false).unwrap().tags.len(), 0);
    match decompile(b"NOPE", false) {
        Err(Error::Other(m)) => assert_eq!(m, "File is missing valid header."),
        _ => panic!("expected an error"),
    }
    let mut cut = b"PRAY".to_vec();
    cut.extend_from_slice(&write_block_header("AGNT", "Ball", 100));
    match decompile(&cut, false) {
        Err(Error::Other(m)) => assert_eq!(m, "File ends before block Ball does."),
        _ => panic!("expected an error"),
    }
    let mut short_info = b"PRAY".to_vec();
    short_info.extend_from_slice(&write_block_header("AGNT", "Ball", 2));
    short_info.extend_from_slice(&[1, 0]);
    assert!(!is_readable(&short_info));
    assert!(decompile_checked(&short_info, false).is_none());
}

#[test]
fn both_games_split_in_two() {
    let tags = vec![Tag::Agent(ball_agent(SupportedGame::C3DS)), Tag::Free(FreeTag::new())];
    let files = vec![script_file("ball.cos", SCRIPT), sprite_file("ball.c16", &[1])];
    let (split, new_files) = split_tags(&tags, &files);
    assert_eq!(split.len(), 3);
    assert_eq!(new_files.len(), 4);
    assert_eq!(new_files[2].get_output_filename(), "ball C3.cos");
    assert_eq!(new_files[3].get_output_filename(), "ball DS.cos");
    assert_eq!(new_files[2].get_input_filename(), "ball.cos");
    match (&split[0], &split[1]) {
        (Tag::Agent(c3), Tag::Agent(ds)) => {
            assert_eq!(c3.name, "Bouncy Ball C3");
            assert_eq!(ds.name, "Bouncy Ball DS");
            assert_eq!(c3.scripts, vec![2]);
            assert_eq!(ds.scripts, vec![3]);
            assert_eq!(c3.sprites, vec![1]);
        },
        _ => panic!("expected two agents"),
    }
    assert!(matches!(&split[2], Tag::Free(f) if f.name == "Untitled Tag"));
}

#[test]
fn one_file_reads_back() {
    let mut bytes = b"PRAY".to_vec();
    bytes.extend_from_slice(&write_file_block(&sound_file("pop.wav", &[8, 9, 10])).unwrap());
    let result = decompile(&bytes, false).unwrap();
    assert_eq!(result.tags.len(), 0);
    assert_eq!(result.files.len(), 1);
    assert_eq!(result.files[0].get_output_filename(), "pop.wav");
    assert_eq!(result.files[0].get_input_filename(), "pop.wav");
    assert_eq!(result.files[0].get_data().unwrap(), vec![8, 9, 10]);
}

fn free_tag(name: &str, version: &str, block_type: &str, contents: &str) -> FreeTag {
    FreeTag {
        name: name.to_string(),
        version: version.to_string(),
        block_type: block_type.to_string(),
        contents: contents.to_string(),
    }
}

#[test]
fn free_tags_and_files_read_back() {
    let tags = vec![
        Tag::Free(free_tag("Notes", "1", "GLST", "line one\nline two")),
        Tag::Free(free_tag("Extra", "", "XTRA", "")),
    ];
    let mut bytes = compile(&tags, &Vec::new()).unwrap();
    bytes.extend_from_slice(&write_file_block(&sound_file("pop.wav", &[8, 9, 10])).unwrap());
    assert!(is_readable(&bytes));
    let result = decompile(&bytes, false).unwrap();
    assert_eq!(result.tags.len(), 2);
    let want = [("Notes", "GLST", "line one\nline two"), ("Extra", "XTRA", "")];
    for (tag, w) in result.tags.iter().zip(want.iter()) {
        match tag {
            Tag::Free(t) => {
                assert_eq!((t.name.as_str(), t.block_type.as_str(), t.contents.as_str()), *w);
                assert_eq!(t.version, "");
            },
            _ => panic!("expected a free tag"),
        }
    }
    assert_eq!(result.files.len(), 1);
    assert_eq!(result.files[0].get_output_filename(), "pop.wav");
    assert_eq!(result.files[0].get_data().unwrap(), vec![8, 9, 10]);
}

#[test]
fn sprite_blocks_become_png_frames() {
    let mut bytes = b"PRAY".to_vec();
    bytes.extend_from_slice(&write_file_block(&sprite_file("ball.c16", &c16_data())).unwrap());
    let framed = decompile(&bytes, false).unwrap();
    assert_eq!(framed.files.len(), 1);
    match &framed.files[0] {
        CreaturesFile::Sprite(Sprite::Png { output_filename, input_filename, frames, data, .. }) => {
            assert_eq!(output_filename, "ball.c16");
            assert_eq!(input_filename, "ball.png");
            assert_eq!(frames.len(), 1);
            assert_eq!(frames[0].input_filename, "ball-1.png");
            assert_eq!(&frames[0].data.as_ref().unwrap()[1..4], b"PNG");
            assert_eq!(data.as_ref().unwrap(), &c16_data());
        },
        _ => panic!("expected a sprite made of frames"),
    }
    let converted = decompile(&bytes, true).unwrap();
    assert_eq!(converted.files.len(), 1);
    assert_eq!(converted.files[0].get_output_filename(), "ball-1.png");
    assert!(matches!(decompile(&{
        let mut bad = b"PRAY".to_vec();
        bad.extend_from_slice(&write_file_block(&sprite_file("wall.blk", &[8, 9, 10, 11, 12, 13, 14])).unwrap());
        bad
    }, false), Err(Error::InvalidSprite)));
}
