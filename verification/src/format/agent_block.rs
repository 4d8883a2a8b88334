//! AGNT and DSAG blocks: agents for Creatures 3 and for Docking Station.
use vstd::prelude::*;
use vstd::utf8::{encode_utf8, decode_utf8, valid_utf8};
use crate::buffer::put_slice;
use crate::file_helper::{or_empty, path_file_stem};
use crate::text::{copy_strings, str_eq, utf8_to_string, strings_view, decimal, decimal_string, push_char, push_str, to_owned, utf8_bytes};
use crate::buffer::ByteReader;
use crate::error::Error;
use super::pray::{spec_read_block, spec_read_block_contents, lemma_read_write_block_header, lemma_read_write_tag_block, tag_is_storable};
use crate::text::{is_plain_ascii, ascii_uppercase};
use super::pray::{BlockHeader, BlockHeaderView, block_header_bytes, write_block_header, write_tag_block, tag_block_bytes, int_entries_view, str_entries_view, file_refs_view, files_view, dependency_category_entries, dependency_name_entries, write_dependencies, file_stem, read_tag_block, spec_read_tag_block, get_dependencies, spec_get_dependencies, str_or_empty, Tag, TagView, Block, BlockView, blocks_view, lookup_str, int_or_zero, numbered_key};
use super::file_block::{File, FileView, full_name};

verus! {

/// An agent: its properties, and the names of the dependencies it uses.
pub struct Agent {
    pub name: String,
    pub game_support: GameSupport,
    pub descriptions: Vec<Description>,
    pub bioenergy: u32,
    pub web_label: String,
    pub web_url: String,
    pub animation_file: String,
    pub animation_string: String,
    pub sprite_first_image: u32,
    pub remove_script: String,
    pub dependencies: Vec<String>,
}

/// The language of a description.
#[derive(Clone, Copy, PartialEq, Eq, Structural, Debug)]
pub enum Language {
    English,
    German,
    Spanish,
    French,
    Italian,
    Dutch,
}

/// A description of an agent in one language.
pub struct Description {
    pub language: Language,
    pub text: String,
}

/// The game an agent is for.
#[derive(Clone, Copy, PartialEq, Eq, Structural, Debug)]
pub enum GameSupport {
    Creatures3,
    DockingStation,
}

/// A description's value.
pub struct DescriptionView {
    pub language: Language,
    pub text: Seq<char>,
}

impl View for Description {
    type V = DescriptionView;

    open spec fn view(&self) -> DescriptionView {
        DescriptionView { language: self.language, text: self.text@ }
    }
}

/// The values of descriptions.
pub open spec fn descriptions_view(v: Seq<Description>) -> Seq<DescriptionView> {
    Seq::new(v.len(), |i: int| v[i]@)
}

/// An agent's value.
pub struct AgentView {
    pub name: Seq<char>,
    pub game_support: GameSupport,
    pub descriptions: Seq<DescriptionView>,
    pub bioenergy: u32,
    pub web_label: Seq<char>,
    pub web_url: Seq<char>,
    pub animation_file: Seq<char>,
    pub animation_string: Seq<char>,
    pub sprite_first_image: u32,
    pub remove_script: Seq<char>,
    pub dependencies: Seq<Seq<char>>,
}

impl View for Agent {
    type V = AgentView;

    open spec fn view(&self) -> AgentView {
        AgentView {
            name: self.name@,
            game_support: self.game_support,
            descriptions: descriptions_view(self.descriptions@),
            bioenergy: self.bioenergy,
            web_label: self.web_label@,
            web_url: self.web_url@,
            animation_file: self.animation_file@,
            animation_string: self.animation_string@,
            sprite_first_image: self.sprite_first_image,
            remove_script: self.remove_script@,
            dependencies: strings_view(self.dependencies@),
        }
    }
}

impl Description {
    /// A description in `language`.
    pub fn new(language: Language, text: String) -> (r: Self)
        ensures
            r.language == language,
            r.text@ == text@,
    {
        Self { language, text }
    }
}


/// `Script i`.
pub open spec fn script_key(i: nat) -> Seq<char> {
    "Script "@ + decimal(i)
}

/// The name of the `i`th script of block `block_name`: the block's name for the first,
/// `block_name i` for the others.
pub open spec fn script_file_name(block_name: Seq<char>, i: nat) -> Seq<char> {
    if i == 1 {
        block_name
    } else {
        block_name.push(' ') + decimal(i)
    }
}

/// The script files `Script 1` to `Script k` that the tag holds, in order.
pub open spec fn scripts_upto(t: TagView, block_name: Seq<char>, k: nat) -> Seq<BlockView>
    decreases k,
{
    if k == 0 {
        Seq::empty()
    } else {
        scripts_upto(t, block_name, (k - 1) as nat) + match lookup_str(t.strs, script_key(k)) {
            Some(text) => seq![
                BlockView::File(
                    FileView {
                        name: script_file_name(block_name, k),
                        extension: "cos"@,
                        data: encode_utf8(text),
                        is_checked: false,
                    },
                ),
            ],
            None => Seq::<BlockView>::empty(),
        }
    }
}

/// The script files a tag holds: `Script 1` up to `Script Count`, as COS files.
pub open spec fn spec_get_scripts(t: TagView, block_name: Seq<char>) -> Seq<BlockView> {
    scripts_upto(t, block_name, int_or_zero(t, "Script Count"@) as nat)
}

/// The script files a tag holds.
pub fn get_scripts(tag: &Tag, block_name: &str) -> (r: Vec<Block>)
    ensures
        blocks_view(r@) == spec_get_scripts(tag@, block_name@),
{
    let mut scripts: Vec<Block> = Vec::new();
    let num_scripts = match tag.get_int("Script Count") {
        Some(v) => v,
        None => 0,
    };
    let mut i: u64 = 1;
    while i <= num_scripts as u64
        invariant
            1 <= i <= num_scripts as u64 + 1,
            num_scripts == int_or_zero(tag@, "Script Count"@),
            blocks_view(scripts@) == scripts_upto(tag@, block_name@, (i - 1) as nat),
        decreases num_scripts as u64 + 1 - i,
    {
        let key = numbered_key("Script ", i);
        let ghost before = scripts@;
        match tag.get_str(key.as_str()) {
            Some(script_text) => {
                let name = if i == 1 {
                    to_owned(block_name)
                } else {
                    let mut n = to_owned(block_name);
                    push_char(&mut n, ' ');
                    let digits = decimal_string(i);
                    push_str(&mut n, digits.as_str());
                    n
                };
                let file = File {
                    name,
                    extension: to_owned("cos"),
                    data: utf8_bytes(script_text.as_str()),
                    is_checked: false,
                };
                let ghost fv = BlockView::File(file@);
                scripts.push(Block::File(file));
                assert(blocks_view(scripts@) =~= blocks_view(before).push(fv));
            },
            None => {},
        }
        i = i + 1;
    }
    scripts
}

/// The description in `language` that the tag holds under `key`, if any.
pub open spec fn description_under(t: TagView, key: Seq<char>, language: Language) -> Seq<DescriptionView> {
    match lookup_str(t.strs, key) {
        Some(text) => seq![DescriptionView { language, text }],
        None => Seq::empty(),
    }
}

/// The descriptions a tag holds: English, German, Spanish, French, Italian, Dutch,
/// each where present.
pub open spec fn spec_get_descriptions(t: TagView) -> Seq<DescriptionView> {
    description_under(t, "Agent Description"@, Language::English)
        + description_under(t, "Agent Description-de"@, Language::German)
        + description_under(t, "Agent Description-es"@, Language::Spanish)
        + description_under(t, "Agent Description-fr"@, Language::French)
        + description_under(t, "Agent Description-it"@, Language::Italian)
        + description_under(t, "Agent Description-nl"@, Language::Dutch)
}

fn push_description(descriptions: &mut Vec<Description>, tag: &Tag, key: &str, language: Language)
    ensures
        descriptions_view(final(descriptions)@) == descriptions_view(old(descriptions)@) + description_under(tag@, key@, language),
{
    let ghost before = descriptions@;
    match tag.get_str(key) {
        Some(text) => {
            descriptions.push(Description { language, text });
            assert(descriptions_view(descriptions@) =~= descriptions_view(before) + description_under(tag@, key@, language));
        },
        None => {
            assert(descriptions_view(descriptions@) =~= descriptions_view(before) + description_under(tag@, key@, language));
        },
    }
}

/// The descriptions a tag holds.
pub fn get_descriptions(tag: &Tag) -> (r: Vec<Description>)
    ensures
        descriptions_view(r@) == spec_get_descriptions(tag@),
{
    let mut descriptions: Vec<Description> = Vec::new();
    assert(descriptions_view(descriptions@) =~= Seq::<DescriptionView>::empty());
    push_description(&mut descriptions, tag, "Agent Description", Language::English);
    push_description(&mut descriptions, tag, "Agent Description-de", Language::German);
    push_description(&mut descriptions, tag, "Agent Description-es", Language::Spanish);
    push_description(&mut descriptions, tag, "Agent Description-fr", Language::French);
    push_description(&mut descriptions, tag, "Agent Description-it", Language::Italian);
    push_description(&mut descriptions, tag, "Agent Description-nl", Language::Dutch);
    assert(descriptions_view(descriptions@) =~= spec_get_descriptions(tag@));
    descriptions
}


/// The dependency names of script files: each name with `.cos` after it.
pub open spec fn script_dependency_names(scripts: Seq<BlockView>) -> Seq<Seq<char>>
    decreases scripts.len(),
{
    if scripts.len() == 0 {
        Seq::empty()
    } else {
        script_dependency_names(scripts.drop_last()) + match scripts.last() {
            BlockView::File(f) => seq![f.name + ".cos"@],
            _ => Seq::<Seq<char>>::empty(),
        }
    }
}

/// The blocks read from an agent block's tag: its script files, then the agent, whose
/// dependencies are the listed ones followed by its scripts.
pub open spec fn spec_agent_blocks(t: TagView, name: Seq<char>, game_support: GameSupport) -> Seq<BlockView> {
    let scripts = spec_get_scripts(t, name);
    scripts.push(
        BlockView::Agent(
            AgentView {
                name,
                game_support,
                descriptions: spec_get_descriptions(t),
                bioenergy: int_or_zero(t, "Agent Bioenergy Value"@),
                web_label: str_or_empty(t, "Web Label"@),
                web_url: str_or_empty(t, "Web URL"@),
                animation_file: str_or_empty(t, "Agent Animation File"@),
                animation_string: str_or_empty(t, "Agent Animation String"@),
                sprite_first_image: int_or_zero(t, "Agent Sprite First Image"@),
                remove_script: str_or_empty(t, "Remove script"@),
                dependencies: spec_get_dependencies(t) + script_dependency_names(scripts),
            },
        ),
    )
}

/// Reads an agent block's contents: its script files, then the agent.
pub fn read_agent_block(buffer: &mut ByteReader, name: &str, game_support: GameSupport) -> (r: Result<Vec<Block>, Error>)
    ensures
        match r {
            Ok(bs) => spec_read_tag_block(old(buffer)@) matches Ok((t, _)) && blocks_view(bs@) == spec_agent_blocks(t, name@, game_support),
            Err(e) => spec_read_tag_block(old(buffer)@) == Err::<(TagView, Seq<u8>), Error>(e),
        },
{
    let tag = read_tag_block(buffer)?;
    let mut agent_blocks: Vec<Block> = Vec::new();

    let mut dependencies = get_dependencies(&tag);
    let ghost listed = strings_view(dependencies@);

    let scripts = get_scripts(&tag, name);
    let ghost sv = blocks_view(scripts@);
    for script_block in it: scripts
        invariant
            it.seq() == scripts@,
            sv == blocks_view(scripts@),
            blocks_view(agent_blocks@) == sv.take(it.index()),
            strings_view(dependencies@) == listed + script_dependency_names(sv.take(it.index())),
    {
        let ghost before_deps = dependencies@;
        let ghost before_blocks = agent_blocks@;
        assert(sv.take(it.index() + 1).drop_last() =~= sv.take(it.index()));
        if let Block::File(script) = &script_block {
            let mut d = to_owned(script.name.as_str());
            push_str(&mut d, ".cos");
            dependencies.push(d);
            assert(strings_view(dependencies@) =~= strings_view(before_deps).push(d@));
        }
        agent_blocks.push(script_block);
        assert(blocks_view(agent_blocks@) =~= blocks_view(before_blocks).push(script_block@));
        assert(blocks_view(agent_blocks@) =~= sv.take(it.index() + 1));
    }
    assert(sv.take(sv.len() as int) =~= sv);

    let ghost before_blocks = agent_blocks@;
    let agent = Agent {
        game_support,
        name: to_owned(name),
        descriptions: get_descriptions(&tag),
        bioenergy: tag.int_value("Agent Bioenergy Value"),
        web_label: tag.str_value("Web Label"),
        web_url: tag.str_value("Web URL"),
        animation_file: tag.str_value("Agent Animation File"),
        animation_string: tag.str_value("Agent Animation String"),
        sprite_first_image: tag.int_value("Agent Sprite First Image"),
        remove_script: tag.str_value("Remove script"),
        dependencies,
    };
    let ghost av = Block::Agent(agent)@;
    agent_blocks.push(Block::Agent(agent));
    assert(blocks_view(agent_blocks@) =~= blocks_view(before_blocks).push(av));
    Ok(agent_blocks)
}


/// The dependencies, in order, that a tag lists by name, either only the scripts (COS
/// files) or only the others.
pub open spec fn selected_files(names: Seq<Seq<char>>, deps: Seq<FileView>, scripts: bool) -> Seq<FileView>
    decreases deps.len(),
{
    if deps.len() == 0 {
        Seq::empty()
    } else {
        let f = deps.last();
        selected_files(names, deps.drop_last(), scripts) + if names.contains(full_name(f.name, f.extension))
            && ((f.extension == "cos"@) == scripts) {
            seq![f]
        } else {
            Seq::<FileView>::empty()
        }
    }
}

/// The key under which a description in `language` is stored.
pub open spec fn language_key(language: Language) -> Seq<char> {
    match language {
        Language::English => "Agent Description"@,
        Language::German => "Agent Description-de"@,
        Language::Spanish => "Agent Description-es"@,
        Language::French => "Agent Description-fr"@,
        Language::Italian => "Agent Description-it"@,
        Language::Dutch => "Agent Description-nl"@,
    }
}

/// The entries of descriptions.
pub open spec fn description_entries(ds: Seq<DescriptionView>) -> Seq<(Seq<char>, Seq<char>)> {
    Seq::new(ds.len(), |i: int| (language_key(ds[i].language), ds[i].text))
}

/// `Script i` holding the text of the `i`th script, for each.
pub open spec fn script_entries(scripts: Seq<FileView>) -> Seq<(Seq<char>, Seq<char>)> {
    Seq::new(scripts.len(), |i: int| (script_key((i + 1) as nat), decode_utf8(scripts[i].data)))
}

/// Whether every script's data is UTF-8 text.
pub open spec fn scripts_are_text(scripts: Seq<FileView>) -> bool {
    forall|i: int| 0 <= i < scripts.len() ==> valid_utf8(#[trigger] scripts[i].data)
}

/// The integer entries of the tag written for an agent.
pub open spec fn agent_int_entries(a: AgentView, deps: Seq<FileView>) -> Seq<(Seq<char>, u32)> {
    let scripts = selected_files(a.dependencies, deps, true);
    let others = selected_files(a.dependencies, deps, false);
    let first = if a.game_support == GameSupport::Creatures3 {
        ("Agent Bioenergy Value"@, a.bioenergy)
    } else {
        ("Agent Sprite First Image"@, a.sprite_first_image)
    };
    (seq![("Agent Type"@, 0u32), first].push(("Dependency Count"@, others.len() as u32))
        + dependency_category_entries(others)).push(("Script Count"@, scripts.len() as u32))
}

/// The string entries of the tag written for an agent.
pub open spec fn agent_str_entries(a: AgentView, deps: Seq<FileView>) -> Seq<(Seq<char>, Seq<char>)> {
    let scripts = selected_files(a.dependencies, deps, true);
    let others = selected_files(a.dependencies, deps, false);
    let animation = seq![
        ("Agent Animation Gallery"@, or_empty(path_file_stem(a.animation_file))),
        ("Agent Animation File"@, a.animation_file),
        ("Agent Animation String"@, a.animation_string),
    ];
    let game = if a.game_support == GameSupport::Creatures3 {
        Seq::empty()
    } else {
        seq![("Web Label"@, a.web_label), ("Web URL"@, a.web_url)] + description_entries(a.descriptions)
    };
    ((animation + game + dependency_name_entries(others)).push(("Remove script"@, a.remove_script)))
        + script_entries(scripts)
}

/// The tag written for an agent.
pub open spec fn agent_tag(a: AgentView, deps: Seq<FileView>) -> TagView {
    TagView { ints: agent_int_entries(a, deps), strs: agent_str_entries(a, deps) }
}

/// The bytes of an agent block: an AGNT (Creatures 3) or DSAG header, then the tag.
pub open spec fn agent_block_bytes(a: AgentView, deps: Seq<FileView>) -> Seq<u8> {
    let content = tag_block_bytes(agent_tag(a, deps));
    block_header_bytes(
        BlockHeaderView {
            id: if a.game_support == GameSupport::Creatures3 {
                "AGNT"@
            } else {
                "DSAG"@
            },
            name: a.name,
            size_compressed: content.len() as usize,
            size_uncompressed: content.len() as usize,
            is_compressed: false,
        },
    ) + content
}

/// Whether `names` holds `name`.
pub fn contains_name(names: &Vec<String>, name: &str) -> (r: bool)
    ensures
        r == strings_view(names@).contains(name@),
{
    let mut i: usize = 0;
    while i < names.len()
        invariant
            i <= names@.len(),
            forall|j: int| 0 <= j < i ==> strings_view(names@)[j] != name@,
        decreases names@.len() - i,
    {
        if str_eq(names[i].as_str(), name) {
            assert(strings_view(names@)[i as int] == name@);
            return true;
        }
        i = i + 1;
    }
    false
}

/// The dependencies listed by name in `names`: the scripts and the others, in order.
pub fn select_dependencies<'a>(names: &Vec<String>, dependencies: &'a Vec<File>) -> (r: (Vec<&'a File>, Vec<&'a File>))
    ensures
        file_refs_view(r.0@) == selected_files(strings_view(names@), files_view(dependencies@), true),
        file_refs_view(r.1@) == selected_files(strings_view(names@), files_view(dependencies@), false),
{
    let ghost fs = files_view(dependencies@);
    let ghost ns = strings_view(names@);
    let mut tag_scripts: Vec<&File> = Vec::new();
    let mut tag_dependencies: Vec<&File> = Vec::new();
    let mut i: usize = 0;
    while i < dependencies.len()
        invariant
            i <= dependencies@.len(),
            fs == files_view(dependencies@),
            ns == strings_view(names@),
            file_refs_view(tag_scripts@) == selected_files(ns, fs.take(i as int), true),
            file_refs_view(tag_dependencies@) == selected_files(ns, fs.take(i as int), false),
        decreases dependencies@.len() - i,
    {
        let dependency = &dependencies[i];
        assert(fs.take(i + 1).drop_last() =~= fs.take(i as int));
        assert(fs.take(i + 1).last() == dependency@);
        let ghost bs = tag_scripts@;
        let ghost bd = tag_dependencies@;
        let filename = dependency.filename();
        if contains_name(names, filename.as_str()) {
            if str_eq(dependency.extension.as_str(), "cos") {
                tag_scripts.push(dependency);
                assert(file_refs_view(tag_scripts@) =~= file_refs_view(bs).push(dependency@));
            } else {
                tag_dependencies.push(dependency);
                assert(file_refs_view(tag_dependencies@) =~= file_refs_view(bd).push(dependency@));
            }
        }
        i = i + 1;
    }
    assert(fs.take(fs.len() as int) =~= fs);
    (tag_scripts, tag_dependencies)
}

/// Appends `Script i` entries holding the text of each script; an error where a
/// script is not UTF-8.
pub(crate) fn push_script_entries(str_values: &mut Vec<(String, String)>, tag_scripts: &Vec<&File>) -> (r: Result<(), Error>)
    ensures
        match r {
            Ok(()) => scripts_are_text(file_refs_view(tag_scripts@)) && str_entries_view(final(str_values)@)
                == str_entries_view(old(str_values)@) + script_entries(file_refs_view(tag_scripts@)),
            Err(e) => !scripts_are_text(file_refs_view(tag_scripts@)) && e == Error::InvalidUtf8,
        },
{
    let ghost ss = file_refs_view(tag_scripts@);
    let ghost start = str_entries_view(str_values@);
    let mut i: usize = 0;
    while i < tag_scripts.len()
        invariant
            i <= tag_scripts@.len(),
            ss == file_refs_view(tag_scripts@),
            forall|j: int| 0 <= j < i ==> valid_utf8(#[trigger] ss[j].data),
            str_entries_view(str_values@) == start + script_entries(ss.take(i as int)),
        decreases tag_scripts@.len() - i,
    {
        let script = tag_scripts[i];
        let ghost before = str_values@;
        match utf8_to_string(script.data.as_slice()) {
            Some(text) => {
                let key = numbered_key("Script ", (i + 1) as u64);
                let ghost e = (key@, text@);
                str_values.push((key, text));
                assert(str_entries_view(str_values@) =~= str_entries_view(before).push(e));
                assert(script_entries(ss.take(i + 1)) =~= script_entries(ss.take(i as int)).push(e));
            },
            None => {
                assert(!valid_utf8(ss[i as int].data));
                return Err(Error::InvalidUtf8);
            },
        }
        i = i + 1;
    }
    assert(ss.take(ss.len() as int) =~= ss);
    Ok(())
}

/// The bytes of an agent block, listing the dependencies that the agent names and
/// holding the text of its scripts; an error where a script is not UTF-8.
pub fn write_agent_block(agent_block: &Agent, dependencies: &Vec<File>) -> (r: Result<Vec<u8>, Error>)
    ensures
        ({
            let scripts = selected_files(agent_block@.dependencies, files_view(dependencies@), true);
            match r {
                Ok(b) => scripts_are_text(scripts) && b@ == agent_block_bytes(agent_block@, files_view(dependencies@)),
                Err(e) => !scripts_are_text(scripts) && e == Error::InvalidUtf8,
            }
        }),
{
    let ghost a = agent_block@;
    let ghost deps = files_view(dependencies@);
    let (tag_scripts, tag_dependencies) = select_dependencies(&agent_block.dependencies, dependencies);

    let mut int_values: Vec<(String, u32)> = Vec::new();
    let mut str_values: Vec<(String, String)> = Vec::new();

    int_values.push((to_owned("Agent Type"), 0));

    str_values.push((to_owned("Agent Animation Gallery"), file_stem(agent_block.animation_file.as_str())));
    str_values.push((to_owned("Agent Animation File"), to_owned(agent_block.animation_file.as_str())));
    str_values.push((to_owned("Agent Animation String"), to_owned(agent_block.animation_string.as_str())));
    let ghost animation = seq![
        ("Agent Animation Gallery"@, or_empty(path_file_stem(a.animation_file))),
        ("Agent Animation File"@, a.animation_file),
        ("Agent Animation String"@, a.animation_string),
    ];
    assert(str_entries_view(str_values@) =~= animation);
    assert(int_entries_view(int_values@) =~= seq![("Agent Type"@, 0u32)]);

    if agent_block.game_support == GameSupport::Creatures3 {
        int_values.push((to_owned("Agent Bioenergy Value"), agent_block.bioenergy));
    } else {
        int_values.push((to_owned("Agent Sprite First Image"), agent_block.sprite_first_image));
        str_values.push((to_owned("Web Label"), to_owned(agent_block.web_label.as_str())));
        str_values.push((to_owned("Web URL"), to_owned(agent_block.web_url.as_str())));
        let ghost before = str_entries_view(str_values@);
        let mut i: usize = 0;
        while i < agent_block.descriptions.len()
            invariant
                i <= agent_block.descriptions@.len(),
                a == agent_block@,
                str_entries_view(str_values@) == before + description_entries(a.descriptions.take(i as int)),
            decreases agent_block.descriptions@.len() - i,
        {
            let description = &agent_block.descriptions[i];
            let key = match description.language {
                Language::English => to_owned("Agent Description"),
                Language::German => to_owned("Agent Description-de"),
                Language::Spanish => to_owned("Agent Description-es"),
                Language::French => to_owned("Agent Description-fr"),
                Language::Italian => to_owned("Agent Description-it"),
                Language::Dutch => to_owned("Agent Description-nl"),
            };
            let ghost bs = str_values@;
            let ghost e = (key@, description.text@);
            str_values.push((key, to_owned(description.text.as_str())));
            assert(str_entries_view(str_values@) =~= str_entries_view(bs).push(e));
            assert(a.descriptions.take(i + 1) =~= a.descriptions.take(i as int).push(a.descriptions[i as int]));
            assert(description_entries(a.descriptions.take(i + 1)) =~= description_entries(a.descriptions.take(i as int)).push(e));
            i = i + 1;
        }
        assert(a.descriptions.take(a.descriptions.len() as int) =~= a.descriptions);
    }

    let ghost first = if a.game_support == GameSupport::Creatures3 {
        ("Agent Bioenergy Value"@, a.bioenergy)
    } else {
        ("Agent Sprite First Image"@, a.sprite_first_image)
    };
    let ghost game = if a.game_support == GameSupport::Creatures3 {
        Seq::empty()
    } else {
        seq![("Web Label"@, a.web_label), ("Web URL"@, a.web_url)] + description_entries(a.descriptions)
    };
    assert(int_entries_view(int_values@) =~= seq![("Agent Type"@, 0u32), first]);
    assert(str_entries_view(str_values@) =~= animation + game);
    let ghost scripts = selected_files(a.dependencies, deps, true);
    let ghost others = selected_files(a.dependencies, deps, false);
    write_dependencies(&mut int_values, &mut str_values, tag_dependencies.as_slice());
    assert(int_entries_view(int_values@) == seq![("Agent Type"@, 0u32), first].push(("Dependency Count"@, others.len() as u32)) + dependency_category_entries(others));

    str_values.push((to_owned("Remove script"), to_owned(agent_block.remove_script.as_str())));

    let ghost ints_before = int_values@;
    let script_count = (to_owned("Script Count"), tag_scripts.len() as u32);
    let ghost sc = (script_count.0@, script_count.1);
    int_values.push(script_count);
    assert(int_entries_view(int_values@) =~= int_entries_view(ints_before).push(sc));
    push_script_entries(&mut str_values, &tag_scripts)?;

    assert(int_entries_view(int_values@) =~= agent_int_entries(a, deps));
    assert(str_entries_view(str_values@) =~= agent_str_entries(a, deps));

    let content_buffer = write_tag_block(int_values.as_slice(), str_values.as_slice());

    let block_header = BlockHeader {
        id: if agent_block.game_support == GameSupport::Creatures3 {
            to_owned("AGNT")
        } else {
            to_owned("DSAG")
        },
        name: to_owned(agent_block.name.as_str()),
        size_compressed: content_buffer.len(),
        size_uncompressed: content_buffer.len(),
        is_compressed: false,
    };

    let mut buffer = write_block_header(block_header);
    put_slice(&mut buffer, content_buffer.as_slice());
    Ok(buffer)
}


/// Copies of descriptions.
pub fn copy_descriptions(v: &Vec<Description>) -> (r: Vec<Description>)
    ensures
        descriptions_view(r@) == descriptions_view(v@),
{
    let mut r: Vec<Description> = Vec::new();
    let mut i: usize = 0;
    while i < v.len()
        invariant
            i <= v@.len(),
            r@.len() == i,
            forall|j: int| 0 <= j < i ==> #[trigger] r@[j]@ == v@[j]@,
        decreases v@.len() - i,
    {
        r.push(Description { language: v[i].language, text: to_owned(v[i].text.as_str()) });
        i = i + 1;
    }
    assert(descriptions_view(r@) =~= descriptions_view(v@));
    r
}

impl Agent {
    /// A copy of the agent.
    pub fn copy(&self) -> (r: Agent)
        ensures
            r@ == self@,
    {
        Agent {
            name: to_owned(self.name.as_str()),
            game_support: self.game_support,
            descriptions: copy_descriptions(&self.descriptions),
            bioenergy: self.bioenergy,
            web_label: to_owned(self.web_label.as_str()),
            web_url: to_owned(self.web_url.as_str()),
            animation_file: to_owned(self.animation_file.as_str()),
            animation_string: to_owned(self.animation_string.as_str()),
            sprite_first_image: self.sprite_first_image,
            remove_script: to_owned(self.remove_script.as_str()),
            dependencies: copy_strings(&self.dependencies),
        }
    }
}


/// Whether an agent block written against `deps` reads back whole: the agent's name is
/// ASCII without NUL and fits the 128-byte name field, every name and text in its tag is
/// ASCII without NUL, and the tag's size fits in 32 bits.
pub open spec fn agent_block_storable(a: AgentView, deps: Seq<FileView>) -> bool {
    &&& is_plain_ascii(a.name)
    &&& a.name.len() <= 128
    &&& tag_is_storable(agent_tag(a, deps))
    &&& tag_block_bytes(agent_tag(a, deps)).len() <= u32::MAX
}

/// The header of a block that holds the tag `t` uncompressed.
pub open spec fn tag_block_header(id: Seq<char>, name: Seq<char>, t: TagView) -> BlockHeaderView {
    BlockHeaderView {
        id,
        name,
        size_compressed: tag_block_bytes(t).len() as usize,
        size_uncompressed: tag_block_bytes(t).len() as usize,
        is_compressed: false,
    }
}

/// Reading back an AGNT or DSAG block that holds a tag uncompressed gives what the tag
/// tells, when the name is ASCII without NUL and fits, and the tag reads back whole.
#[verifier::spinoff_prover]
#[verifier::rlimit(70)]
pub proof fn lemma_read_agent_tag_block(id: Seq<char>, name: Seq<char>, t: TagView, rest: Seq<u8>)
    requires
        id == "AGNT"@ || id == "DSAG"@,
        is_plain_ascii(name),
        name.len() <= 128,
        tag_is_storable(t),
        tag_block_bytes(t).len() <= u32::MAX,
    ensures
        spec_read_block(block_header_bytes(tag_block_header(id, name, t)) + tag_block_bytes(t) + rest)
            == Ok::<(Seq<BlockView>, Seq<u8>), Error>(
            (spec_agent_blocks(t, name, if id == "AGNT"@ { GameSupport::Creatures3 } else { GameSupport::DockingStation }), rest),
        ),
{
    let content = tag_block_bytes(t);
    let h = tag_block_header(id, name, t);
    reveal_strlit("AGNT");
    reveal_strlit("DSAG");
    reveal_strlit("FILE");
    assert(is_plain_ascii(id));
    lemma_read_write_block_header(h, content + rest);
    assert(block_header_bytes(h) + content + rest =~= block_header_bytes(h) + (content + rest));
    assert(ascii_uppercase(id) =~= id);
    assert(BlockHeaderView { id: ascii_uppercase(h.id), ..h } == h);
    assert((content + rest).take(content.len() as int) =~= content);
    assert((content + rest).skip(content.len() as int) =~= rest);
    assert(spec_read_block_contents(content + rest, h) == Ok::<(Seq<u8>, Seq<u8>), Error>((content, rest)));
    lemma_read_write_tag_block(t, Seq::empty());
    assert(content + Seq::<u8>::empty() =~= content);
    assert(id != "FILE"@) by {
        assert(id[0] != "FILE"@[0]);
    }
}

/// Reading back a written agent block gives what its tag tells: the script files it
/// holds, then the agent.
pub proof fn lemma_read_written_agent_block(a: AgentView, deps: Seq<FileView>, rest: Seq<u8>)
    requires
        agent_block_storable(a, deps),
    ensures
        spec_read_block(agent_block_bytes(a, deps) + rest) == Ok::<(Seq<BlockView>, Seq<u8>), Error>(
            (spec_agent_blocks(agent_tag(a, deps), a.name, a.game_support), rest),
        ),
{
    let t = agent_tag(a, deps);
    let id = if a.game_support == GameSupport::Creatures3 { "AGNT"@ } else { "DSAG"@ };
    lemma_read_agent_tag_block(id, a.name, t, rest);
    reveal_strlit("AGNT");
    reveal_strlit("DSAG");
    assert(a.game_support == GameSupport::DockingStation ==> id != "AGNT"@) by {
        assert("DSAG"@[0] != "AGNT"@[0]);
    }
    assert(agent_block_bytes(a, deps) == block_header_bytes(tag_block_header(id, a.name, t)) + tag_block_bytes(t));
}
} // verus!
