//! Agent tags in a Theist source: an `agent` line with the name and games, then
//! indented lines for the version, description, remove script, preview and files used.
use vstd::prelude::*;
use crate::agent::agent_tag::{AgentTag, SupportedGame, Preview, RemoveScript};
use crate::agent::file::{CreaturesFile, FileType, filetype_of, output_filename, first_named, lookup_file_index};
use super::decode::{spec_parse_tokens, parse_tokens, game_said, tokenizer_run, tokenizer_step};
use super::free_tag::lines_view;
use crate::text::{push_str, to_owned, escape_quotes, escape_quotes_string, str_eq, strings_view};

verus! {

/// The short name of the games an agent is for.
pub open spec fn games_name(g: SupportedGame) -> Seq<char> {
    match g {
        SupportedGame::C3 => "c3"@,
        SupportedGame::DS => "ds"@,
        SupportedGame::C3DS => "c3ds"@,
    }
}

/// A `use` line for each listed place that holds a file of the kind `kind`.
pub open spec fn use_lines(places: Seq<usize>, files: Seq<CreaturesFile>, kind: FileType) -> Seq<char>
    decreases places.len(),
{
    if places.len() == 0 {
        Seq::empty()
    } else {
        let p = places.last();
        use_lines(places.drop_last(), files, kind) + if p < files.len() && filetype_of(files[p as int]) == kind {
            "\tuse \""@ + output_filename(files[p as int]) + "\"\n"@
        } else {
            Seq::empty()
        }
    }
}

/// The first line of an agent tag: its name and games.
pub open spec fn agent_head(tag: AgentTag) -> Seq<char> {
    "agent \""@ + tag.name@ + "\" "@ + games_name(tag.supported_game) + "\n"@
}

/// Running the tokenizer over one more character is one more step.
proof fn lemma_run_push(s: Seq<char>, c: char)
    ensures
        tokenizer_run(s.push(c)) == tokenizer_step(tokenizer_run(s), c),
{
    assert(s.push(c).drop_last() =~= s);
}

/// Characters that are no quote, backslash, tab or carriage return (and no space,
/// outside quotes) only grow the token being built.
proof fn lemma_run_plain(s: Seq<char>, w: Seq<char>)
    requires
        !tokenizer_run(s).escaped,
        forall|i: int| 0 <= i < w.len() ==> #[trigger] w[i] != '"' && w[i] != '\\' && w[i] != '\t' && w[i] != '\r'
            && (tokenizer_run(s).in_quote || w[i] != ' '),
    ensures
        tokenizer_run(s + w).tokens == tokenizer_run(s).tokens,
        tokenizer_run(s + w).current == tokenizer_run(s).current + w,
        tokenizer_run(s + w).in_quote == tokenizer_run(s).in_quote,
        !tokenizer_run(s + w).escaped,
    decreases w.len(),
{
    if w.len() == 0 {
        assert(s + w =~= s);
        assert(tokenizer_run(s).current + w =~= tokenizer_run(s).current);
    } else {
        let u = w.drop_last();
        lemma_run_plain(s, u);
        assert(s + w =~= (s + u).push(w.last()));
        lemma_run_push(s + u, w.last());
        assert(w.last() == w[w.len() - 1]);
        assert((tokenizer_run(s).current + u).push(w.last()) =~= tokenizer_run(s).current + w);
    }
}

/// A name that an agent's head line can carry and give back: not empty, and without
/// quotes, backslashes, tabs, carriage returns or line breaks.
pub open spec fn plain_name(n: Seq<char>) -> bool {
    &&& n.len() > 0
    &&& forall|i: int| 0 <= i < n.len() ==> #[trigger] n[i] != '"' && n[i] != '\\' && n[i] != '\t' && n[i] != '\r' && n[i] != '\n'
}

/// The head line written for an agent reads back as an `agent` line with the agent's
/// name and the games it is for, named `c3`, `ds` or `c3ds`: reading it gives back its
/// `supported_game`.
pub proof fn lemma_agent_head_read_back(tag: AgentTag)
    requires
        plain_name(tag.name@),
    ensures
        ({
            let h = agent_head(tag);
            let line = h.drop_last();
            let t = spec_parse_tokens(line);
            &&& h.len() > 0 && h.last() == '\n' && !line.contains('\n')
            &&& t.len() == 3
            &&& t[0] == "agent"@
            &&& t[1] == tag.name@
            &&& t[2] == match tag.supported_game {
                SupportedGame::C3 => "c3"@,
                SupportedGame::DS => "ds"@,
                SupportedGame::C3DS => "c3ds"@,
            }
            &&& game_said(t) == tag.supported_game
        }),
{
    reveal_strlit("agent \"");
    reveal_strlit("\" ");
    reveal_strlit("\n");
    reveal_strlit("agent");
    reveal_strlit("c3");
    reveal_strlit("ds");
    reveal_strlit("c3ds");
    let name = tag.name@;
    let g = games_name(tag.supported_game);
    let line = agent_head(tag).drop_last();
    let s1 = "agent"@;
    let s2 = s1.push(' ');
    let s3 = s2.push('"');
    let s4 = s3 + name;
    let s5 = s4.push('"');
    let s6 = s5.push(' ');
    let s7 = s6 + g;
    assert(agent_head(tag) =~= s7.push('\n'));
    assert(line =~= s7);
    let e = Seq::<char>::empty();
    assert(e + s1 =~= s1);
    assert(tokenizer_run(e) == (super::decode::TokenizerState { tokens: Seq::empty(), current: Seq::empty(), in_quote: false, escaped: false }));
    lemma_run_plain(e, s1);
    lemma_run_push(s1, ' ');
    assert(tokenizer_run(s2).tokens == seq![s1]);
    lemma_run_push(s2, '"');
    lemma_run_plain(s3, name);
    assert(tokenizer_run(s4).current =~= name);
    lemma_run_push(s4, '"');
    lemma_run_push(s5, ' ');
    assert(tokenizer_run(s6).tokens == seq![s1, name]);
    assert(g.len() > 0);
    lemma_run_plain(s6, g);
    assert(tokenizer_run(s7).current =~= g);
    assert(spec_parse_tokens(line) == seq![s1, name, g]);
    assert(!line.contains('\n')) by {
        assert forall|i: int| 0 <= i < line.len() implies line[i] != '\n' by {
            if i >= s3.len() && i < s4.len() {
                assert(line[i] == name[i - s3.len()]);
            }
        }
    }
}

/// The version line, where there is a version.
pub open spec fn version_line(version: Seq<char>) -> Seq<char> {
    if version.len() > 0 { "\tversion \""@ + version + "\"\n"@ } else { Seq::empty() }
}

/// The description line (quotes escaped), where there is a description.
pub open spec fn description_line(description: Seq<char>) -> Seq<char> {
    if description.len() > 0 { "\tdescription \""@ + escape_quotes(description) + "\"\n"@ } else { Seq::empty() }
}

/// The remove script line: the script (quotes escaped) where it is given and not empty,
/// `auto` where it is to be found in the scripts.
pub open spec fn remove_script_line(r: RemoveScript) -> Seq<char> {
    match r {
        RemoveScript::Manual(s) => if s@.len() > 0 { "\tremovescript \""@ + escape_quotes(s@) + "\"\n"@ } else { Seq::empty() },
        RemoveScript::Auto => "\tremovescript auto\n"@,
        RemoveScript::Unset => Seq::empty(),
    }
}

/// The preview line, where the preview is given and its sprite is a sprite file.
pub open spec fn preview_line(p: Preview, files: Seq<CreaturesFile>) -> Seq<char> {
    match p {
        Preview::Manual { sprite, animation } => if sprite < files.len() && filetype_of(files[sprite as int]) == FileType::Sprite {
            "\tpreview \""@ + output_filename(files[sprite as int]) + "\" \""@ + animation@ + "\"\n"@
        } else {
            Seq::empty()
        },
        _ => Seq::empty(),
    }
}

/// The files an agent uses: `use all` (with no line break after it) where it lists as
/// many files as there are, else a `use` line for each listed script, sprite, sound and
/// catalogue.
pub open spec fn agent_uses(tag: AgentTag, files: Seq<CreaturesFile>) -> Seq<char> {
    if tag.scripts@.len() + tag.sprites@.len() + tag.sounds@.len() + tag.catalogues@.len() == files.len() {
        "\tuse all"@
    } else {
        use_lines(tag.scripts@, files, FileType::Script) + use_lines(tag.sprites@, files, FileType::Sprite)
            + use_lines(tag.sounds@, files, FileType::Sound) + use_lines(tag.catalogues@, files, FileType::Catalogue)
    }
}

/// The source text of an agent tag.
pub open spec fn agent_source(tag: AgentTag, files: Seq<CreaturesFile>) -> Seq<char> {
    agent_head(tag) + version_line(tag.version@) + description_line(tag.description@) + remove_script_line(tag.remove_script)
        + preview_line(tag.preview, files) + agent_uses(tag, files) + "\n"@
}

/// Appends the `use` lines for the listed places that hold files of the kind `kind`.
pub fn push_use_lines(content: &mut String, places: &Vec<usize>, files: &[CreaturesFile], kind: FileType)
    ensures
        final(content)@ == old(content)@ + use_lines(places@, files@, kind),
{
    let ghost head = content@;
    let mut i: usize = 0;
    while i < places.len()
        invariant
            i <= places@.len(),
            content@ == head + use_lines(places@.take(i as int), files@, kind),
        decreases places@.len() - i,
    {
        let p = places[i];
        assert(places@.take(i + 1).drop_last() =~= places@.take(i as int));
        assert(places@.take(i + 1).last() == p);
        let ghost before = content@;
        if p < files.len() && files[p].get_filetype() == kind {
            push_str(content, "\tuse \"");
            push_str(content, files[p].get_output_filename_ref().as_str());
            push_str(content, "\"\n");
            assert(content@ =~= before + ("\tuse \""@ + output_filename(files@[p as int]) + "\"\n"@));
        }
        assert(content@ =~= head + use_lines(places@.take(i + 1), files@, kind));
        i = i + 1;
    }
    assert(places@.take(i as int) =~= places@);
}

fn head_text(tag: &AgentTag) -> (r: String)
    ensures
        r@ == agent_head(*tag),
{
    let mut content = to_owned("agent \"");
    push_str(&mut content, tag.name.as_str());
    push_str(&mut content, "\" ");
    let games = match tag.supported_game {
        SupportedGame::C3 => "c3",
        SupportedGame::DS => "ds",
        SupportedGame::C3DS => "c3ds",
    };
    push_str(&mut content, games);
    push_str(&mut content, "\n");
    assert(content@ =~= agent_head(*tag));
    content
}

/// The version line, where there is a version.
pub fn version_text(version: &str) -> (r: String)
    ensures
        r@ == version_line(version@),
{
    let mut content = String::new();
    if version.unicode_len() > 0 {
        push_str(&mut content, "\tversion \"");
        push_str(&mut content, version);
        push_str(&mut content, "\"\n");
    }
    assert(content@ =~= version_line(version@));
    content
}

fn description_text(description: &str) -> (r: String)
    ensures
        r@ == description_line(description@),
{
    let mut content = String::new();
    if description.unicode_len() > 0 {
        push_str(&mut content, "\tdescription \"");
        push_str(&mut content, escape_quotes_string(description).as_str());
        push_str(&mut content, "\"\n");
    }
    assert(content@ =~= description_line(description@));
    content
}

fn remove_script_text(remove_script: &RemoveScript) -> (r: String)
    ensures
        r@ == remove_script_line(*remove_script),
{
    let mut content = String::new();
    match remove_script {
        RemoveScript::Manual(s) => {
            if s.as_str().unicode_len() > 0 {
                push_str(&mut content, "\tremovescript \"");
                push_str(&mut content, escape_quotes_string(s.as_str()).as_str());
                push_str(&mut content, "\"\n");
            }
        },
        RemoveScript::Auto => {
            push_str(&mut content, "\tremovescript auto\n");
        },
        _ => {},
    }
    assert(content@ =~= remove_script_line(*remove_script));
    content
}

fn preview_text(preview: &Preview, files: &[CreaturesFile]) -> (r: String)
    ensures
        r@ == preview_line(*preview, files@),
{
    let mut content = String::new();
    if let Preview::Manual { sprite, animation } = preview {
        if *sprite < files.len() && files[*sprite].get_filetype() == FileType::Sprite {
            push_str(&mut content, "\tpreview \"");
            push_str(&mut content, files[*sprite].get_output_filename_ref().as_str());
            push_str(&mut content, "\" \"");
            push_str(&mut content, animation.as_str());
            push_str(&mut content, "\"\n");
        }
    }
    assert(content@ =~= preview_line(*preview, files@));
    content
}

fn uses_text(tag: &AgentTag, files: &[CreaturesFile]) -> (r: String)
    ensures
        r@ == agent_uses(*tag, files@),
{
    let mut content = String::new();
    let total: u128 = tag.scripts.len() as u128 + tag.sprites.len() as u128 + tag.sounds.len() as u128 + tag.catalogues.len() as u128;
    if total == files.len() as u128 {
        push_str(&mut content, "\tuse all");
    } else {
        push_use_lines(&mut content, &tag.scripts, files, FileType::Script);
        push_use_lines(&mut content, &tag.sprites, files, FileType::Sprite);
        push_use_lines(&mut content, &tag.sounds, files, FileType::Sound);
        push_use_lines(&mut content, &tag.catalogues, files, FileType::Catalogue);
    }
    assert(content@ =~= agent_uses(*tag, files@));
    content
}

/// Writes an agent tag as source text.
pub fn encode(tag: &AgentTag, files: &[CreaturesFile]) -> (r: String)
    ensures
        r@ == agent_source(*tag, files@),
{
    let mut content = head_text(tag);
    push_str(&mut content, version_text(tag.version.as_str()).as_str());
    push_str(&mut content, description_text(tag.description.as_str()).as_str());
    push_str(&mut content, remove_script_text(&tag.remove_script).as_str());
    push_str(&mut content, preview_text(&tag.preview, files).as_str());
    push_str(&mut content, uses_text(tag, files).as_str());
    push_str(&mut content, "\n");
    assert(content@ =~= agent_source(*tag, files@));
    content
}

/// What the lines of an agent tag say: its version, description, remove script
/// (`None` where not given; `Some(None)` for `auto`), preview (`None` where not given;
/// `Some(None)` for `auto`), the places of its files of each kind, and whether it uses
/// all files.
pub struct AgentLines {
    pub version: Seq<char>,
    pub description: Seq<char>,
    pub remove_script: Option<Option<Seq<char>>>,
    pub preview: Option<Option<(usize, Seq<char>)>>,
    pub scripts: Seq<usize>,
    pub sprites: Seq<usize>,
    pub sounds: Seq<usize>,
    pub catalogues: Seq<usize>,
    pub use_all_files: bool,
}

/// The words that agent tag lines begin with.
pub open spec fn is_agent_line(t: Seq<Seq<char>>) -> bool {
    t.len() > 0 && (t[0] == "version"@ || t[0] == "description"@ || t[0] == "removescript"@ || t[0] == "preview"@
        || t[0] == "use"@)
}

/// The words `t[1..j]` of a `use` line taken in turn: `all` uses all files; any other
/// names the first file of that name, added to the list of its kind.
pub open spec fn agent_uses_read(st: AgentLines, t: Seq<Seq<char>>, j: nat, files: Seq<CreaturesFile>) -> AgentLines
    decreases j,
{
    if j <= 1 {
        st
    } else {
        let prev = agent_uses_read(st, t, (j - 1) as nat, files);
        let w = t[j - 1];
        if w == "all"@ {
            AgentLines { use_all_files: true, ..prev }
        } else {
            match first_named(files, w, 0) {
                Some(p) => match filetype_of(files[p as int]) {
                    FileType::Script => AgentLines { scripts: prev.scripts.push(p), ..prev },
                    FileType::Sprite => AgentLines { sprites: prev.sprites.push(p), ..prev },
                    FileType::Sound => AgentLines { sounds: prev.sounds.push(p), ..prev },
                    FileType::Catalogue => AgentLines { catalogues: prev.catalogues.push(p), ..prev },
                    _ => prev,
                },
                None => prev,
            }
        }
    }
}

/// A `use` line changes only the lists of files and whether all files are used.
pub proof fn lemma_uses_keep(st: AgentLines, t: Seq<Seq<char>>, j: nat, files: Seq<CreaturesFile>)
    ensures
        agent_uses_read(st, t, j, files).version == st.version,
        agent_uses_read(st, t, j, files).description == st.description,
        agent_uses_read(st, t, j, files).remove_script == st.remove_script,
        agent_uses_read(st, t, j, files).preview == st.preview,
    decreases j,
{
    if j > 1 {
        lemma_uses_keep(st, t, (j - 1) as nat, files);
    }
}

/// What an agent tag line with the words `t` adds: `version`, `description`,
/// `removescript` (a script or `auto`), `preview` (`auto`, or a sprite's name and an
/// animation, where a file has that name) and `use` lines.
pub open spec fn agent_line_step(st: AgentLines, t: Seq<Seq<char>>, files: Seq<CreaturesFile>) -> AgentLines {
    if t[0] == "version"@ {
        if t.len() > 1 { AgentLines { version: t[1], ..st } } else { st }
    } else if t[0] == "description"@ {
        if t.len() > 1 { AgentLines { description: t[1], ..st } } else { st }
    } else if t[0] == "removescript"@ {
        if t.len() > 1 {
            AgentLines { remove_script: Some(if t[1] == "auto"@ { None } else { Some(t[1]) }), ..st }
        } else {
            st
        }
    } else if t[0] == "preview"@ {
        if t.len() > 1 && t[1] == "auto"@ {
            AgentLines { preview: Some(None), ..st }
        } else if t.len() > 2 {
            match first_named(files, t[1], 0) {
                Some(p) => AgentLines { preview: Some(Some((p, t[2]))), ..st },
                None => st,
            }
        } else {
            st
        }
    } else {
        agent_uses_read(st, t, t.len(), files)
    }
}

/// What the first `k` lines of an agent tag say.
pub open spec fn agent_lines_read(lines: Seq<Seq<char>>, k: nat, files: Seq<CreaturesFile>) -> AgentLines
    decreases k,
{
    if k == 0 {
        AgentLines {
            version: Seq::empty(),
            description: Seq::empty(),
            remove_script: None,
            preview: None,
            scripts: Seq::empty(),
            sprites: Seq::empty(),
            sounds: Seq::empty(),
            catalogues: Seq::empty(),
            use_all_files: false,
        }
    } else {
        agent_line_step(agent_lines_read(lines, (k - 1) as nat, files), spec_parse_tokens(lines[k - 1]), files)
    }
}

/// The first line from `i` on that is not an agent tag line.
pub open spec fn agent_lines_end(lines: Seq<Seq<char>>, i: nat) -> nat
    decreases lines.len() - i,
{
    if i >= lines.len() {
        i
    } else if !is_agent_line(spec_parse_tokens(lines[i as int])) {
        i
    } else {
        agent_lines_end(lines, i + 1)
    }
}

/// The remove script that a value says: none, `auto`, or a script.
pub open spec fn remove_script_said(r: RemoveScript) -> Option<Option<Seq<char>>> {
    match r {
        RemoveScript::Unset => None,
        RemoveScript::Auto => Some(None),
        RemoveScript::Manual(s) => Some(Some(s@)),
    }
}

/// The preview that a value says: none, `auto`, or a sprite's place and an animation.
pub open spec fn preview_said(p: Preview) -> Option<Option<(usize, Seq<char>)>> {
    match p {
        Preview::Unset => None,
        Preview::Auto => Some(None),
        Preview::Manual { sprite, animation } => Some(Some((sprite, animation@))),
    }
}

/// The lists and flag of an agent read so far.
pub struct UseLists {
    pub scripts: Vec<usize>,
    pub sprites: Vec<usize>,
    pub sounds: Vec<usize>,
    pub catalogues: Vec<usize>,
    pub use_all_files: bool,
}

/// Whether the lists agree with what the lines say.
pub open spec fn lists_agree(l: UseLists, st: AgentLines) -> bool {
    &&& l.scripts@ == st.scripts
    &&& l.sprites@ == st.sprites
    &&& l.sounds@ == st.sounds
    &&& l.catalogues@ == st.catalogues
    &&& l.use_all_files == st.use_all_files
}

fn read_use_line(tokens: &Vec<String>, files: &[CreaturesFile], lists: &mut UseLists, Ghost(st): Ghost<AgentLines>)
    requires
        lists_agree(*old(lists), st),
    ensures
        lists_agree(*final(lists), agent_uses_read(st, strings_view(tokens@), tokens@.len(), files@)),
{
    let ghost t = strings_view(tokens@);
    let mut j: usize = 1;
    if tokens.len() < 1 {
        return;
    }
    while j < tokens.len()
        invariant
            1 <= j <= tokens@.len(),
            t == strings_view(tokens@),
            lists_agree(*lists, agent_uses_read(st, t, j as nat, files@)),
        decreases tokens@.len() - j,
    {
        let w = &tokens[j];
        assert(t[j as int] == w@);
        if str_eq(w.as_str(), "all") {
            lists.use_all_files = true;
        } else if let Some(p) = lookup_file_index(files, w) {
            match files[p].get_filetype() {
                FileType::Script => lists.scripts.push(p),
                FileType::Sprite => lists.sprites.push(p),
                FileType::Sound => lists.sounds.push(p),
                FileType::Catalogue => lists.catalogues.push(p),
                _ => {},
            }
        }
        j = j + 1;
    }
}

/// Reads an agent tag from the lines after its `agent` line: its version, description,
/// remove script, preview and files, up to the first line of another kind; gives the tag
/// and the number of its lines.
#[verifier::rlimit(40)]
pub fn decode(lines: Vec<&str>, name: String, supported_game: SupportedGame, files: &[CreaturesFile]) -> (r: (AgentTag, usize))
    ensures
        ({
            let lv = lines_view(lines@);
            let end = agent_lines_end(lv, 0);
            let st = agent_lines_read(lv, end, files@);
            let a = r.0;
            &&& r.1 == end
            &&& a.name@ == name@
            &&& a.version@ == st.version
            &&& a.description@ == st.description
            &&& a.supported_game == supported_game
            &&& preview_said(a.preview) == st.preview
            &&& remove_script_said(a.remove_script) == st.remove_script
            &&& a.remove_script_backup is Unset
            &&& a.preview_backup is Unset
            &&& a.scripts@ == st.scripts
            &&& a.sprites@ == st.sprites
            &&& a.sounds@ == st.sounds
            &&& a.catalogues@ == st.catalogues
            &&& a.use_all_files == st.use_all_files
        }),
{
    let ghost lv = lines_view(lines@);
    let mut version = String::new();
    let mut description = String::new();
    let mut preview = Preview::Unset;
    let mut remove_script = RemoveScript::Unset;
    let mut lists = UseLists { scripts: Vec::new(), sprites: Vec::new(), sounds: Vec::new(), catalogues: Vec::new(), use_all_files: false };
    let mut i: usize = 0;
    let mut done = false;
    while i < lines.len() && !done
        invariant
            i <= lines@.len(),
            lv == lines_view(lines@),
            agent_lines_end(lv, 0) == agent_lines_end(lv, i as nat),
            done ==> agent_lines_end(lv, i as nat) == i,
            ({
                let st = agent_lines_read(lv, i as nat, files@);
                &&& version@ == st.version
                &&& description@ == st.description
                &&& preview_said(preview) == st.preview
                &&& remove_script_said(remove_script) == st.remove_script
                &&& lists_agree(lists, st)
            }),
        decreases lines@.len() - i, if done { 0int } else { 1int },
    {
        let ghost st = agent_lines_read(lv, i as nat, files@);
        let tokens = parse_tokens(lines[i]);
        let ghost t = strings_view(tokens@);
        assert(lv[i as int] == lines@[i as int]@);
        assert(forall|j: int| 0 <= j < tokens@.len() ==> t[j] == (#[trigger] tokens@[j])@);
        if tokens.len() == 0 {
            done = true;
            continue;
        }
        let w = tokens[0].as_str();
        assert(t[0] == w@);
        if str_eq(w, "version") {
            if tokens.len() > 1 {
                version = to_owned(tokens[1].as_str());
                assert(t[1] == tokens@[1]@);
            }
        } else if str_eq(w, "description") {
            if tokens.len() > 1 {
                description = to_owned(tokens[1].as_str());
                assert(t[1] == tokens@[1]@);
            }
        } else if str_eq(w, "removescript") {
            if tokens.len() > 1 {
                assert(t[1] == tokens@[1]@);
                if str_eq(tokens[1].as_str(), "auto") {
                    remove_script = RemoveScript::Auto;
                } else {
                    remove_script = RemoveScript::Manual(to_owned(tokens[1].as_str()));
                }
            }
        } else if str_eq(w, "preview") {
            if tokens.len() > 1 && str_eq(tokens[1].as_str(), "auto") {
                assert(t[1] == tokens@[1]@);
                preview = Preview::Auto;
            } else if tokens.len() > 2 {
                assert(t[1] == tokens@[1]@);
                assert(t[2] == tokens@[2]@);
                if let Some(sprite) = lookup_file_index(files, &tokens[1]) {
                    preview = Preview::Manual { sprite, animation: to_owned(tokens[2].as_str()) };
                }
            }
        } else if str_eq(w, "use") {
            read_use_line(&tokens, files, &mut lists, Ghost(st));
        } else {
            done = true;
            continue;
        }
        proof {
            lemma_uses_keep(st, t, t.len(), files@);
        }
        i = i + 1;
    }
    (AgentTag {
        name,
        version,
        description,
        supported_game,
        remove_script,
        preview,
        remove_script_backup: RemoveScript::Unset,
        preview_backup: Preview::Unset,
        scripts: lists.scripts,
        sprites: lists.sprites,
        sounds: lists.sounds,
        catalogues: lists.catalogues,
        use_all_files: lists.use_all_files,
    }, i)
}

} // verus!
