use theist::buffer::ByteReader;
use theist::error::Error;
use theist::format::agent_block::{Agent, Description, GameSupport, Language};
use theist::format::egg_block::Egg;
use theist::format::file_block::File;
use theist::format::gb_block::GardenBox;
use theist::format::generic_block::GenericBlock;
use theist::format::pray::{
    decode, encode, file_stem, get_dependencies, read_block_contents, read_block_header, read_string, read_tag_block,
    read_u32, write_block_header, write_dependencies, write_string, write_tag_block, Block, BlockHeader, Tag,
};

fn file(name: &str, extension: &str, data: &[u8]) -> File {
    File { name: name.to_string(), extension: extension.to_string(), data: data.to_vec(), is_checked: false }
}

#[test]
fn write_string_pads_and_cuts() {
    assert_eq!(write_string("PRAY", 6), vec![b'P', b'R', b'A', b'Y', 0, 0]);
    assert_eq!(write_string("PRAY", 2), vec![b'P', b'R']);
}

#[test]
fn read_string_keeps_ascii_without_nul() {
    let mut r = ByteReader::new(&[b'a', 0, b'b', 200, b'c', b'd']);
    assert_eq!(read_string(&mut r, 5).unwrap(), "abc");
    assert_eq!(r.len(), 1);
}

#[test]
fn read_string_cut_short() {
    let mut r = ByteReader::new(&[b'a', b'b']);
    assert!(matches!(read_string(&mut r, 3), Err(Error::StringCut)));
    assert_eq!(r.len(), 2);
}

#[test]
fn read_u32_little_endian_and_cut() {
    let mut r = ByteReader::new(&[1, 2, 0, 0, 9]);
    assert_eq!(read_u32(&mut r).unwrap(), 513);
    assert!(matches!(read_u32(&mut r), Err(Error::IntegerCut)));
}

#[test]
fn block_header_round_trip() {
    let bytes = write_block_header(BlockHeader {
        id: "dsag".to_string(),
        name: "My Agent".to_string(),
        size_compressed: 10,
        size_uncompressed: 20,
        is_compressed: true,
    });
    assert_eq!(bytes.len(), 144);
    let mut r = ByteReader::new(&bytes);
    let h = read_block_header(&mut r).unwrap();
    assert_eq!(h.id, "DSAG");
    assert_eq!(h.name, "My Agent");
    assert_eq!(h.size_compressed, 10);
    assert_eq!(h.size_uncompressed, 20);
    assert!(h.is_compressed);
    assert!(r.is_empty());
}

#[test]
fn tag_block_round_trip() {
    let ints = vec![("Agent Type".to_string(), 0u32), ("Script Count".to_string(), 2)];
    let strs = vec![("Script 1".to_string(), "inst".to_string()), ("Script 2".to_string(), "endm".to_string())];
    let bytes = write_tag_block(&ints, &strs);
    let mut r = ByteReader::new(&bytes);
    let tag = read_tag_block(&mut r).unwrap();
    assert_eq!(tag.get_int("Script Count"), Some(2));
    assert_eq!(tag.get_int("Agent Type"), Some(0));
    assert_eq!(tag.get_str("Script 2"), Some("endm".to_string()));
    assert_eq!(tag.get_str("Missing"), None);
    assert!(r.is_empty());
}

#[test]
fn tag_dependencies_are_numbered() {
    let ints = vec![("Dependency Count".to_string(), 3u32)];
    let strs = vec![("Dependency 1".to_string(), "a.c16".to_string()), ("Dependency 3".to_string(), "c.wav".to_string())];
    let bytes = write_tag_block(&ints, &strs);
    let tag = read_tag_block(&mut ByteReader::new(&bytes)).unwrap();
    assert_eq!(get_dependencies(&tag), vec!["a.c16".to_string(), "c.wav".to_string()]);
}

#[test]
fn block_contents_cut_short() {
    let header = BlockHeader { id: "FILE".to_string(), name: "a".to_string(), size_compressed: 8, size_uncompressed: 8, is_compressed: false };
    let mut r = ByteReader::new(&[1, 2, 3]);
    assert!(matches!(read_block_contents(&mut r, &header), Err(Error::BlockContentsCut)));
}

#[test]
fn compressed_contents_that_are_not_zlib() {
    let header = BlockHeader { id: "FILE".to_string(), name: "a".to_string(), size_compressed: 3, size_uncompressed: 8, is_compressed: true };
    let mut r = ByteReader::new(&[1, 2, 3]);
    assert!(matches!(read_block_contents(&mut r, &header), Err(Error::Decompression)));
}

#[test]
fn file_block_round_trip() {
    let data: Vec<u8> = (0..200u32).map(|i| (i % 7) as u8).collect();
    let bytes = encode(&vec![Block::File(file("norn", "c16", &data))], &Vec::new()).unwrap();
    assert_eq!(&bytes[0..4], b"PRAY");
    let blocks = decode(&bytes).unwrap();
    assert_eq!(blocks.len(), 1);
    match &blocks[0] {
        Block::File(f) => {
            assert_eq!(f.name, "norn");
            assert_eq!(f.extension, "c16");
            assert_eq!(f.data, data);
            assert!(!f.is_checked);
        },
        _ => panic!("expected a file block"),
    }
}

#[test]
fn file_block_data_is_compressed() {
    let data = vec![0u8; 1000];
    let bytes = encode(&vec![Block::File(file("zeros", "dat", &data))], &Vec::new()).unwrap();
    assert!(bytes.len() < 4 + 144 + 1000);
}

#[test]
fn dependencies_are_written_but_scripts_are_not() {
    let deps = vec![file("a", "cos", b"inst"), file("b", "wav", b"RIFF")];
    let bytes = encode(&Vec::new(), &deps).unwrap();
    let blocks = decode(&bytes).unwrap();
    assert_eq!(blocks.len(), 1);
    match &blocks[0] {
        Block::File(f) => assert_eq!(f.extension, "wav"),
        _ => panic!("expected a file block"),
    }
}

#[test]
fn egg_round_trip() {
    let egg = Egg {
        name: "Norn Egg".to_string(),
        genetics_file: "norn.gen".to_string(),
        genetics_file_mother: String::new(),
        genetics_file_father: String::new(),
        sprite_file_male: "m.c16".to_string(),
        sprite_file_female: "f.c16".to_string(),
        animation_string: "0 1".to_string(),
        dependencies: vec!["norn.gen".to_string()],
    };
    let deps = vec![file("norn", "gen", b"dna3")];
    let bytes = encode(&vec![Block::Egg(egg)], &deps).unwrap();
    let blocks = decode(&bytes).unwrap();
    assert_eq!(blocks.len(), 2);
    match &blocks[0] {
        Block::Egg(e) => {
            assert_eq!(e.name, "Norn Egg");
            assert_eq!(e.genetics_file, "norn.gen");
            assert_eq!(e.genetics_file_mother, ".gen");
            assert_eq!(e.sprite_file_male, "m.c16");
            assert_eq!(e.sprite_file_female, "f.c16");
            assert_eq!(e.animation_string, "0 1");
            assert_eq!(e.dependencies, vec!["norn.gen".to_string()]);
        },
        _ => panic!("expected an egg"),
    }
    match &blocks[1] {
        Block::File(f) => assert_eq!(f.data, b"dna3".to_vec()),
        _ => panic!("expected a file block"),
    }
}

#[test]
fn agent_round_trip_with_script() {
    let agent = Agent {
        name: "Ball".to_string(),
        game_support: GameSupport::DockingStation,
        descriptions: vec![Description::new(Language::English, "A ball".to_string())],
        bioenergy: 0,
        web_label: String::new(),
        web_url: String::new(),
        animation_file: "ball.c16".to_string(),
        animation_string: "0".to_string(),
        sprite_first_image: 3,
        remove_script: "enum 2 21 1000 kill targ next".to_string(),
        dependencies: vec!["ball.cos".to_string(), "ball.c16".to_string()],
    };
    let deps = vec![file("ball", "cos", b"inst\nendm"), file("ball", "c16", b"img")];
    let bytes = encode(&vec![Block::Agent(agent)], &deps).unwrap();
    let blocks = decode(&bytes).unwrap();
    assert_eq!(blocks.len(), 3);
    match &blocks[0] {
        Block::File(f) => {
            assert_eq!(f.name, "Ball");
            assert_eq!(f.extension, "cos");
            assert_eq!(f.data, b"inst\nendm".to_vec());
        },
        _ => panic!("expected the script"),
    }
    match &blocks[1] {
        Block::Agent(a) => {
            assert_eq!(a.name, "Ball");
            assert_eq!(a.game_support, GameSupport::DockingStation);
            assert_eq!(a.descriptions.len(), 1);
            assert_eq!(a.descriptions[0].language, Language::English);
            assert_eq!(a.descriptions[0].text, "A ball");
            assert_eq!(a.sprite_first_image, 3);
            assert_eq!(a.animation_file, "ball.c16");
            assert_eq!(a.remove_script, "enum 2 21 1000 kill targ next");
            assert_eq!(a.dependencies, vec!["ball.c16".to_string(), "Ball.cos".to_string()]);
        },
        _ => panic!("expected the agent"),
    }
    match &blocks[2] {
        Block::File(f) => assert_eq!(f.extension, "c16"),
        _ => panic!("expected the sprite"),
    }
}

#[test]
fn agent_with_binary_script_is_refused() {
    let agent = Agent {
        name: "Bad".to_string(),
        game_support: GameSupport::Creatures3,
        descriptions: Vec::new(),
        bioenergy: 5,
        web_label: String::new(),
        web_url: String::new(),
        animation_file: String::new(),
        animation_string: String::new(),
        sprite_first_image: 0,
        remove_script: String::new(),
        dependencies: vec!["x.cos".to_string()],
    };
    let deps = vec![file("x", "cos", &[0xff, 0xfe])];
    assert!(matches!(encode(&vec![Block::Agent(agent)], &deps), Err(Error::InvalidUtf8)));
}

#[test]
fn generic_block_is_written_marked_compressed() {
    let g = GenericBlock { id: "GLST".to_string(), name: "x".to_string(), data: vec![1, 2, 3] };
    let bytes = encode(&vec![Block::Generic(g)], &Vec::new()).unwrap();
    assert_eq!(bytes.len(), 4 + 144 + 3);
    assert!(matches!(decode(&bytes), Err(Error::Decompression)));
}

#[test]
fn decode_of_truncated_file() {
    assert!(matches!(decode(b"PR"), Err(Error::StringCut)));
    assert_eq!(decode(b"PRAY").unwrap().len(), 0);
    assert!(matches!(decode(b"PRAYFILE"), Err(Error::StringCut)));
}

#[test]
fn file_stem_of_paths() {
    assert_eq!(file_stem("dir/name.c16"), "name");
    assert_eq!(file_stem("archive.tar.gz"), "archive.tar");
    assert_eq!(file_stem(".bashrc"), ".bashrc");
    assert_eq!(file_stem(""), "");
}

#[test]
fn encoded_files_decode_back_in_order() {
    let blocks = vec![Block::File(file("one", "c16", b"first")), Block::File(file("two", "wav", b"second"))];
    let mut checked = file("three", "png", b"third");
    checked.is_checked = true;
    let deps = vec![file("s", "cos", b"scrp 1 2 3 4"), checked];
    let decoded = decode(&encode(&blocks, &deps).unwrap()).unwrap();
    let names: Vec<(String, String, Vec<u8>, bool)> = decoded
        .iter()
        .map(|b| match b {
            Block::File(f) => (f.name.clone(), f.extension.clone(), f.data.clone(), f.is_checked),
            _ => panic!("expected a file block"),
        })
        .collect();
    assert_eq!(
        names,
        vec![
            ("one".to_string(), "c16".to_string(), b"first".to_vec(), false),
            ("two".to_string(), "wav".to_string(), b"second".to_vec(), false),
            ("three".to_string(), "png".to_string(), b"third".to_vec(), false),
        ]
    );
}

#[test]
fn agent_read_back_keeps_its_game_fields() {
    let ds = Agent {
        name: "Toy".to_string(),
        game_support: GameSupport::DockingStation,
        descriptions: vec![
            Description::new(Language::French, "un".to_string()),
            Description::new(Language::English, "one".to_string()),
            Description::new(Language::French, "une".to_string()),
        ],
        bioenergy: 40,
        web_label: "home".to_string(),
        web_url: "example.org".to_string(),
        animation_file: "toy.c16".to_string(),
        animation_string: "1 2".to_string(),
        sprite_first_image: 7,
        remove_script: "rscr".to_string(),
        dependencies: Vec::new(),
    };
    let blocks = decode(&encode(&vec![Block::Agent(ds)], &Vec::new()).unwrap()).unwrap();
    match &blocks[0] {
        Block::Agent(a) => {
            assert_eq!(a.bioenergy, 0);
            assert_eq!(a.sprite_first_image, 7);
            assert_eq!((a.web_label.as_str(), a.web_url.as_str()), ("home", "example.org"));
            assert_eq!((a.animation_file.as_str(), a.animation_string.as_str()), ("toy.c16", "1 2"));
            assert_eq!(a.remove_script, "rscr");
            let ds: Vec<(Language, String)> = a.descriptions.iter().map(|d| (d.language, d.text.clone())).collect();
            assert_eq!(ds, vec![(Language::English, "one".to_string()), (Language::French, "une".to_string())]);
        },
        _ => panic!("expected the agent"),
    }
    let c3 = Agent {
        name: "Toy".to_string(),
        game_support: GameSupport::Creatures3,
        descriptions: vec![Description::new(Language::English, "one".to_string())],
        bioenergy: 40,
        web_label: "home".to_string(),
        web_url: "example.org".to_string(),
        animation_file: String::new(),
        animation_string: String::new(),
        sprite_first_image: 7,
        remove_script: String::new(),
        dependencies: Vec::new(),
    };
    let blocks = decode(&encode(&vec![Block::Agent(c3)], &Vec::new()).unwrap()).unwrap();
    match &blocks[0] {
        Block::Agent(a) => {
            assert_eq!((a.bioenergy, a.sprite_first_image), (40, 0));
            assert!(a.web_label.is_empty() && a.web_url.is_empty() && a.descriptions.is_empty());
        },
        _ => panic!("expected the agent"),
    }
}

#[test]
fn egg_genetics_read_back_without_stars() {
    let egg = Egg {
        name: "Star".to_string(),
        genetics_file: "star**.gen".to_string(),
        genetics_file_mother: "mum.gno".to_string(),
        genetics_file_father: "dad".to_string(),
        sprite_file_male: String::new(),
        sprite_file_female: String::new(),
        animation_string: String::new(),
        dependencies: Vec::new(),
    };
    let blocks = decode(&encode(&vec![Block::Egg(egg)], &Vec::new()).unwrap()).unwrap();
    match &blocks[0] {
        Block::Egg(e) => {
            assert_eq!(e.genetics_file, "star.gen");
            assert_eq!(e.genetics_file_mother, "mum.gen");
            assert_eq!(e.genetics_file_father, "dad.gen");
        },
        _ => panic!("expected an egg"),
    }
}

#[test]
fn garden_box_read_back() {
    let item = GardenBox {
        name: "Fern".to_string(),
        description: "A fern".to_string(),
        author: "someone".to_string(),
        category: 2,
        animation_file: "fern.c16".to_string(),
        sprite_first_image: 4,
        remove_script: "rscr".to_string(),
        dependencies: vec!["fern.cos".to_string(), "fern.c16".to_string(), "other.wav".to_string()],
    };
    let deps = vec![file("fern", "c16", b"img"), file("fern", "cos", b"inst"), file("other", "wav", b"RIFF")];
    let blocks = decode(&encode(&vec![Block::GardenBox(item)], &deps).unwrap()).unwrap();
    assert_eq!(blocks.len(), 4);
    match &blocks[0] {
        Block::File(f) => assert_eq!((f.name.as_str(), f.extension.as_str(), f.data.as_slice()), ("Fern", "cos", &b"inst"[..])),
        _ => panic!("expected the script"),
    }
    match &blocks[1] {
        Block::GardenBox(g) => {
            assert_eq!((g.name.as_str(), g.description.as_str(), g.author.as_str()), ("Fern", "A fern", "someone"));
            assert_eq!((g.category, g.sprite_first_image), (2, 4));
            assert_eq!((g.animation_file.as_str(), g.remove_script.as_str()), ("fern.c16", "rscr"));
            assert_eq!(g.dependencies, vec!["fern.c16".to_string(), "other.wav".to_string(), "Fern.cos".to_string()]);
        },
        _ => panic!("expected the item"),
    }
    let plain = GardenBox {
        name: "Rock".to_string(),
        description: String::new(),
        author: String::new(),
        category: 6,
        animation_file: String::new(),
        sprite_first_image: 9,
        remove_script: String::new(),
        dependencies: Vec::new(),
    };
    let blocks = decode(&encode(&vec![Block::GardenBox(plain)], &Vec::new()).unwrap()).unwrap();
    match &blocks[0] {
        Block::GardenBox(g) => assert_eq!((g.animation_file.as_str(), g.sprite_first_image), ("", 0)),
        _ => panic!("expected the item"),
    }
}

#[test]
fn written_dependencies_read_back() {
    let deps = vec![file("ball", "c16", b""), file("pop", "wav", b""), file("x", "att", b"")];
    let refs: Vec<&File> = deps.iter().collect();
    let mut ints = Vec::new();
    let mut strs = Vec::new();
    write_dependencies(&mut ints, &mut strs, &refs);
    let tag = Tag { int_values: ints, str_values: strs };
    assert_eq!(get_dependencies(&tag), vec!["ball.c16".to_string(), "pop.wav".to_string(), "x.att".to_string()]);
}
