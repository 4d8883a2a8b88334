//! Reading Theist sources.
use vstd::prelude::*;
use crate::text::{chars_of, strings_view, push_char, pieces, split, lemma_pieces_nonempty, string_of, to_owned, str_eq};
use crate::agent::agent_tag::SupportedGame;
use crate::agent::egg_tag::EggPreview;
use crate::agent::file::{CreaturesFile, FileType};
use crate::agent::tag::{Tag, files_of_kind, file_list, mapped_list};
use super::file::{FileDesc, files_end, files_decoded, file_descs, all_unread};
use super::agent_tag::{AgentLines, agent_lines_end, agent_lines_read, preview_said, remove_script_said};
use super::egg_tag::{EggLines, egg_lines_end, egg_lines_read};
use super::free_tag::{free_tag_lines, lines_view};
use crate::error::Error;

verus! {

/// Where a tokenizer stands after some characters: the tokens it finished, the one it
/// is building, whether it is inside quotes, and whether the last character was a
/// backslash that escapes the next.
pub struct TokenizerState {
    pub tokens: Seq<Seq<char>>,
    pub current: Seq<char>,
    pub in_quote: bool,
    pub escaped: bool,
}

/// One character's effect: an escaped character is kept whatever it is; a space ends
/// the current token, or is kept inside quotes; a `"` opens or closes quotes; a `\`
/// escapes the next character; tabs and carriage returns are dropped; anything else is
/// kept.
pub open spec fn tokenizer_step(st: TokenizerState, c: char) -> TokenizerState {
    if st.escaped {
        TokenizerState { current: st.current.push(c), escaped: false, ..st }
    } else if c == ' ' {
        if st.in_quote {
            TokenizerState { current: st.current.push(c), ..st }
        } else if st.current.len() > 0 {
            TokenizerState { tokens: st.tokens.push(st.current), current: Seq::empty(), ..st }
        } else {
            st
        }
    } else if c == '"' {
        TokenizerState { in_quote: !st.in_quote, ..st }
    } else if c == '\\' {
        TokenizerState { escaped: true, ..st }
    } else if c == '\t' || c == '\r' {
        st
    } else {
        TokenizerState { current: st.current.push(c), ..st }
    }
}

/// Where the tokenizer stands after the characters of `s`.
pub open spec fn tokenizer_run(s: Seq<char>) -> TokenizerState
    decreases s.len(),
{
    if s.len() == 0 {
        TokenizerState { tokens: Seq::empty(), current: Seq::empty(), in_quote: false, escaped: false }
    } else {
        tokenizer_step(tokenizer_run(s.drop_last()), s.last())
    }
}

/// The tokens of a line: those finished, then the last one where it is not empty.
pub open spec fn spec_parse_tokens(s: Seq<char>) -> Seq<Seq<char>> {
    let st = tokenizer_run(s);
    if st.current.len() > 0 {
        st.tokens.push(st.current)
    } else {
        st.tokens
    }
}

/// Splits a line into tokens: words separated by spaces, where quotes keep spaces in a
/// word and a backslash keeps the next character whatever it is.
pub fn parse_tokens(s: &str) -> (r: Vec<String>)
    ensures
        strings_view(r@) == spec_parse_tokens(s@),
{
    let chars = chars_of(s);
    let mut tokens: Vec<String> = Vec::new();
    let mut current_token = String::new();
    let mut is_in_quote = false;
    let mut is_escaped = false;
    let mut i: usize = 0;
    while i < chars.len()
        invariant
            i <= chars@.len(),
            chars@ == s@,
            ({
                let st = tokenizer_run(s@.take(i as int));
                &&& strings_view(tokens@) == st.tokens
                &&& current_token@ == st.current
                &&& is_in_quote == st.in_quote
                &&& is_escaped == st.escaped
            }),
        decreases chars@.len() - i,
    {
        let c = chars[i];
        proof {
            assert(s@.take(i + 1).drop_last() =~= s@.take(i as int));
            assert(s@.take(i + 1).last() == c);
        }
        if is_escaped {
            push_char(&mut current_token, c);
            is_escaped = false;
        } else if c == ' ' {
            if is_in_quote {
                push_char(&mut current_token, c);
            } else if current_token.as_str().unicode_len() > 0 {
                let token = current_token;
                current_token = String::new();
                let ghost before = tokens@;
                tokens.push(token);
                assert(strings_view(tokens@) =~= strings_view(before).push(token@));
            }
        } else if c == '"' {
            is_in_quote = !is_in_quote;
        } else if c == '\\' {
            is_escaped = true;
        } else if c == '\t' || c == '\r' {
        } else {
            push_char(&mut current_token, c);
        }
        i = i + 1;
    }
    assert(s@.take(i as int) =~= s@);
    if current_token.as_str().unicode_len() > 0 {
        let ghost before = tokens@;
        tokens.push(current_token);
        assert(strings_view(tokens@) =~= strings_view(before).push(tokenizer_run(s@).current));
    }
    tokens
}

/// `s` without one `\r` at its end.
pub open spec fn without_cr(s: Seq<char>) -> Seq<char> {
    if s.len() > 0 && s.last() == '\r' { s.drop_last() } else { s }
}

/// The lines of a text, as `str::lines` gives them: the pieces between line breaks,
/// each that ended with a line break without a `\r` before it, and no empty last line.
pub open spec fn text_lines(s: Seq<char>) -> Seq<Seq<char>> {
    let p = pieces(s, '\n');
    Seq::new((p.len() - 1) as nat, |i: int| without_cr(p[i])) + if p.last().len() > 0 { seq![p.last()] } else { Seq::empty() }
}

/// Splits a text into lines, as `str::lines` does.
pub fn text_lines_of(s: &str) -> (r: Vec<String>)
    ensures
        strings_view(r@) == text_lines(s@),
{
    let p = split(s, '\n');
    let ghost pv = strings_view(p@);
    proof {
        lemma_pieces_nonempty(s@, '\n');
    }
    let mut lines: Vec<String> = Vec::new();
    let n = p.len() - 1;
    let mut i: usize = 0;
    while i < n
        invariant
            i <= n,
            n == pv.len() - 1,
            pv == strings_view(p@),
            lines@.len() == i,
            strings_view(lines@) == Seq::new(i as nat, |k: int| without_cr(pv[k])),
        decreases n - i,
    {
        let piece = p[i].as_str();
        assert(pv[i as int] == piece@);
        let chars = chars_of(piece);
        let len = chars.len();
        let line = if len > 0 && chars[len - 1] == '\r' {
            string_of(chars.as_slice(), 0, len - 1)
        } else {
            to_owned(piece)
        };
        proof {
            if len > 0 && chars@[len - 1] == '\r' {
                assert(piece@.subrange(0, len - 1) =~= piece@.drop_last());
            }
        }
        let ghost prev = lines@;
        assert(line@ == without_cr(pv[i as int]));
        lines.push(line);
        assert(strings_view(lines@) =~= Seq::new((i + 1) as nat, |k: int| without_cr(pv[k]))) by {
            assert forall|k: int| 0 <= k < i + 1 implies #[trigger] strings_view(lines@)[k] == without_cr(pv[k]) by {
                if k < i {
                    assert(lines@[k] == prev[k]);
                    assert(strings_view(prev)[k] == without_cr(pv[k]));
                }
            }
        }
        i = i + 1;
    }
    if p[n].as_str().unicode_len() > 0 {
        let ghost prev = lines@;
        lines.push(to_owned(p[n].as_str()));
        assert(strings_view(lines@) =~= strings_view(prev).push(pv[n as int]));
    }
    assert(strings_view(lines@) =~= text_lines(s@));
    lines
}

/// The game an `agent` line's words name: `c3` or `ds` as the third word, both games
/// where they are the third and fourth words (in either order), both games otherwise.
pub open spec fn game_said(t: Seq<Seq<char>>) -> SupportedGame {
    if t.len() > 2 {
        let g = if t[2] == "c3"@ { SupportedGame::C3 } else if t[2] == "ds"@ { SupportedGame::DS } else { SupportedGame::C3DS };
        if t.len() > 3 && ((t[2] == "c3"@ && t[3] == "ds"@) || (t[2] == "ds"@ && t[3] == "c3"@)) {
            SupportedGame::C3DS
        } else {
            g
        }
    } else {
        SupportedGame::C3DS
    }
}

/// The games an `agent` line names by its words after the name: `ds` alone gives DS,
/// `c3` alone gives C3, the two together (in either order) give both games, and
/// anything else, or nothing, gives both games.
pub proof fn lemma_game_words(t: Seq<Seq<char>>)
    ensures
        t.len() > 2 && t[2] == "ds"@ && !(t.len() > 3 && t[3] == "c3"@) ==> game_said(t) == SupportedGame::DS,
        t.len() > 2 && t[2] == "c3"@ && !(t.len() > 3 && t[3] == "ds"@) ==> game_said(t) == SupportedGame::C3,
        t.len() > 3 && ((t[2] == "c3"@ && t[3] == "ds"@) || (t[2] == "ds"@ && t[3] == "c3"@)) ==> game_said(t) == SupportedGame::C3DS,
        t.len() <= 2 || (t[2] != "c3"@ && t[2] != "ds"@) ==> game_said(t) == SupportedGame::C3DS,
{
    reveal_strlit("c3");
    reveal_strlit("ds");
    assert("c3"@ != "ds"@) by {
        assert("c3"@[0] != "ds"@[0]);
    }
}

/// The files sections that the words `t[j..]` of line `i` begin: each `files` word reads
/// the files section after the line (counting from where the previous one ended); gives
/// the files read, and how many lines they took.
pub open spec fn files_in_line(lines: Seq<Seq<char>>, t: Seq<Seq<char>>, j: nat, i: nat, acc: Seq<FileDesc>) -> (Seq<FileDesc>, nat)
    decreases t.len() - j,
{
    if j >= t.len() {
        (acc, 0)
    } else if t[j as int] == "files"@ {
        let sub = lines.skip(i + 1int);
        let end = files_end(sub, 0);
        let (f, more) = files_in_line(lines, t, j + 1, i + end, acc + files_decoded(sub, end));
        (f, end + more)
    } else {
        files_in_line(lines, t, j + 1, i, acc)
    }
}

/// The files of a source's `files` sections, from line `i` on.
pub open spec fn files_said(lines: Seq<Seq<char>>, i: nat, acc: Seq<FileDesc>) -> Seq<FileDesc>
    decreases if i < lines.len() { lines.len() - i } else { 0 },
{
    if i < lines.len() {
        let (f, skip) = files_in_line(lines, spec_parse_tokens(lines[i as int]), 0, i, acc);
        files_said(lines, i + skip + 1, f)
    } else {
        acc
    }
}

/// What a tag of a source says: an agent's name, game and lines; an egg's name and
/// lines; or a free tag's name, block type, version and contents.
pub enum TagSaid {
    Agent(Seq<char>, SupportedGame, AgentLines),
    Egg(Seq<char>, EggLines),
    Free(Seq<char>, Seq<char>, Seq<char>, Seq<char>),
}

/// The tags that the words `t[j..]` of line `i` begin: each `agent`, `egg` or `other`
/// word with a name after the line's first word reads a tag from the lines after the
/// line (counting from where the previous one ended); gives the tags read, how many lines
/// they took, and whether reading went through (it does not where a tag word comes when
/// a free tag has already taken the text's last line).
pub open spec fn tags_in_line(lines: Seq<Seq<char>>, t: Seq<Seq<char>>, j: nat, i: nat, files: Seq<CreaturesFile>, acc: Seq<TagSaid>) -> (Seq<TagSaid>, nat, bool)
    decreases t.len() - j,
{
    if j >= t.len() {
        (acc, 0, true)
    } else {
        let sub = lines.skip(i + 1int);
        let w = t[j as int];
        if (w == "agent"@ || w == "egg"@ || w == "other"@) && t.len() > 1 && i + 1 > lines.len() {
            (acc, 0, false)
        } else if w == "agent"@ && t.len() > 1 {
            let end = agent_lines_end(sub, 0);
            let said = TagSaid::Agent(t[1], game_said(t), agent_lines_read(sub, end, files));
            let (r, more, ok) = tags_in_line(lines, t, j + 1, i + end, files, acc.push(said));
            (r, end + more, ok)
        } else if w == "egg"@ && t.len() > 1 {
            let end = egg_lines_end(sub, 0);
            let said = TagSaid::Egg(t[1], egg_lines_read(sub, end, files));
            let (r, more, ok) = tags_in_line(lines, t, j + 1, i + end, files, acc.push(said));
            (r, end + more, ok)
        } else if w == "other"@ && t.len() > 1 {
            let (version, contents, end) = free_tag_lines(sub, 1, Seq::empty(), Seq::empty(), false);
            let said = TagSaid::Free(t[1], if t.len() > 2 { t[2] } else { Seq::empty() }, version, contents);
            let (r, more, ok) = tags_in_line(lines, t, j + 1, i + end, files, acc.push(said));
            (r, end + more, ok)
        } else {
            tags_in_line(lines, t, j + 1, i, files, acc)
        }
    }
}

/// The tags of a source, from line `i` on, and whether reading them goes through.
pub open spec fn tags_said(lines: Seq<Seq<char>>, i: nat, files: Seq<CreaturesFile>, acc: Seq<TagSaid>) -> (Seq<TagSaid>, bool)
    decreases if i < lines.len() { lines.len() - i } else { 0 },
{
    if i < lines.len() {
        let (r, skip, ok) = tags_in_line(lines, spec_parse_tokens(lines[i as int]), 0, i, files, acc);
        if ok { tags_said(lines, i + skip + 1, files, r) } else { (r, false) }
    } else {
        (acc, true)
    }
}

/// A list, with all the files of its kind after it where all files are used.
pub open spec fn with_all(l: Seq<usize>, all: bool, files: Seq<CreaturesFile>, ft: FileType) -> Seq<usize> {
    if all { l + files_of_kind(files, ft, files.len()) } else { l }
}

/// Whether `tag` is what `said` says, with all the files where all are used.
pub open spec fn is_said(tag: Tag, said: TagSaid, files: Seq<CreaturesFile>) -> bool {
    match said {
        TagSaid::Agent(name, game, st) => match tag {
            Tag::Agent(a) => {
                &&& a.name@ == name
                &&& a.version@ == st.version
                &&& a.description@ == st.description
                &&& a.supported_game == game
                &&& preview_said(a.preview) == st.preview
                &&& remove_script_said(a.remove_script) == st.remove_script
                &&& a.remove_script_backup is Unset
                &&& a.preview_backup is Unset
                &&& a.scripts@ == with_all(st.scripts, st.use_all_files, files, FileType::Script)
                &&& a.sprites@ == with_all(st.sprites, st.use_all_files, files, FileType::Sprite)
                &&& a.sounds@ == with_all(st.sounds, st.use_all_files, files, FileType::Sound)
                &&& a.catalogues@ == with_all(st.catalogues, st.use_all_files, files, FileType::Catalogue)
                &&& a.use_all_files == st.use_all_files
            },
            _ => false,
        },
        TagSaid::Egg(name, st) => match tag {
            Tag::Egg(e) => {
                &&& e.name@ == name
                &&& e.version@ == st.version
                &&& match st.preview {
                    Some((m, f, anim)) => e.preview matches EggPreview::Manual { sprite_male, sprite_female, animation }
                        && sprite_male == m && sprite_female == f && animation@ == anim,
                    None => e.preview is Unset,
                }
                &&& e.genome == st.genome
                &&& e.preview_backup is Unset
                &&& e.sprites@ == with_all(st.sprites, st.use_all_files, files, FileType::Sprite)
                &&& e.bodydata@ == with_all(st.bodydata, st.use_all_files, files, FileType::BodyData)
                &&& e.genetics@ == with_all(st.genetics, st.use_all_files, files, FileType::Genetics)
                &&& e.use_all_files == st.use_all_files
            },
            _ => false,
        },
        TagSaid::Free(name, block_type, version, contents) => match tag {
            Tag::Free(f) => f.name@ == name && f.block_type@ == block_type && f.version@ == version && f.contents@ == contents,
            _ => false,
        },
    }
}

/// The tags and files of a source.
pub struct DecodeResult {
    pub tags: Vec<Tag>,
    pub files: Vec<CreaturesFile>,
}

fn lines_from<'a>(lines: &Vec<&'a str>, from: usize) -> (r: Vec<&'a str>)
    requires
        from <= lines@.len(),
    ensures
        lines_view(r@) == lines_view(lines@).skip(from as int),
{
    let mut r: Vec<&'a str> = Vec::new();
    let mut k: usize = from;
    while k < lines.len()
        invariant
            from <= k <= lines@.len(),
            lines_view(r@) == lines_view(lines@).subrange(from as int, k as int),
            r@.len() == k - from,
        decreases lines@.len() - k,
    {
        let ghost prev = r@;
        r.push(lines[k]);
        assert(lines_view(r@) =~= lines_view(lines@).subrange(from as int, k + 1)) by {
            assert forall|m: int| 0 <= m < r@.len() implies #[trigger] lines_view(r@)[m] == lines_view(lines@).subrange(from as int, k + 1)[m] by {
                if m < prev.len() {
                    assert(r@[m] == prev[m]);
                    assert(lines_view(prev)[m] == lines_view(lines@).subrange(from as int, k as int)[m]);
                }
            }
        }
        k = k + 1;
    }
    assert(lines_view(lines@).subrange(from as int, k as int) =~= lines_view(lines@).skip(from as int));
    r
}

proof fn lemma_files_end_bound(lines: Seq<Seq<char>>, i: nat)
    ensures
        i <= lines.len() ==> i <= files_end(lines, i) <= lines.len(),
    decreases lines.len() - i,
{
    if i < lines.len() {
        lemma_files_end_bound(lines, i + 1);
    }
}

fn read_files_in_line(lines: &Vec<&str>, tokens: &Vec<String>, i: usize, files: &mut Vec<CreaturesFile>) -> (skip: usize)
    requires
        i < lines@.len(),
        all_unread(old(files)@),
    ensures
        files_in_line(lines_view(lines@), strings_view(tokens@), 0, i as nat, file_descs(old(files)@))
            == (file_descs(final(files)@), skip as nat),
        i + skip < lines@.len(),
        all_unread(final(files)@),
{
    let ghost lv = lines_view(lines@);
    let ghost t = strings_view(tokens@);
    let ghost d0 = file_descs(files@);
    let n = lines.len();
    let mut cur: usize = i;
    let mut j: usize = 0;
    while j < tokens.len()
        invariant
            j <= tokens@.len(),
            n == lines@.len(),
            i <= cur < lines@.len(),
            lv == lines_view(lines@),
            t == strings_view(tokens@),
            all_unread(files@),
            ({
                let (f, more) = files_in_line(lv, t, j as nat, cur as nat, file_descs(files@));
                files_in_line(lv, t, 0, i as nat, d0) == (f, ((cur - i) + more) as nat)
            }),
        decreases tokens@.len() - j,
    {
        assert(t[j as int] == tokens@[j as int]@);
        if str_eq(tokens[j].as_str(), "files") {
            let sub = lines_from(lines, cur + 1);
            let ghost before = files@;
            let (mut new_files, skip) = super::file::decode(sub);
            proof {
                lemma_files_end_bound(lv.skip(cur + 1int), 0);
            }
            let ghost nf = new_files@;
            files.append(&mut new_files);
            proof {
                assert(files@ == before + nf);
                assert(file_descs(files@) =~= file_descs(before) + file_descs(nf));
                assert forall|m: int| 0 <= m < files@.len() implies super::file::is_unread(#[trigger] files@[m]) by {
                    if m < before.len() {
                        assert(files@[m] == before[m]);
                    } else {
                        assert(files@[m] == nf[m - before.len()]);
                    }
                }
            }
            cur = cur + skip;
        }
        j = j + 1;
    }
    cur - i
}

proof fn lemma_agent_lines_end_bound(lines: Seq<Seq<char>>, i: nat)
    ensures
        i <= lines.len() ==> i <= agent_lines_end(lines, i) <= lines.len(),
    decreases lines.len() - i,
{
    if i < lines.len() {
        lemma_agent_lines_end_bound(lines, i + 1);
    }
}

proof fn lemma_egg_lines_end_bound(lines: Seq<Seq<char>>, i: nat)
    ensures
        i <= lines.len() ==> i <= egg_lines_end(lines, i) <= lines.len(),
    decreases lines.len() - i,
{
    if i < lines.len() {
        lemma_egg_lines_end_bound(lines, i + 1);
    }
}

proof fn lemma_free_lines_bound(lines: Seq<Seq<char>>, i: nat, version: Seq<char>, contents: Seq<char>, started: bool)
    ensures
        i <= free_tag_lines(lines, i, version, contents, started).2,
        i <= lines.len() ==> free_tag_lines(lines, i, version, contents, started).2 <= lines.len(),
    decreases lines.len() - i,
{
    if i < lines.len() {
        let tokens = spec_parse_tokens(lines[i as int]);
        lemma_free_lines_bound(lines, i + 1, if tokens.len() > 1 { tokens[1] } else { version }, contents, started);
        lemma_free_lines_bound(lines, i + 1, version, contents + lines[i as int].push('\n'), true);
        lemma_free_lines_bound(lines, i + 1, version, contents, true);
    }
}

fn game_of(tokens: &Vec<String>) -> (g: SupportedGame)
    ensures
        g == game_said(strings_view(tokens@)),
{
    let ghost t = strings_view(tokens@);
    assert(forall|j: int| 0 <= j < tokens@.len() ==> t[j] == (#[trigger] tokens@[j])@);
    if tokens.len() > 2 {
        let second = tokens[2].as_str();
        let g = if str_eq(second, "c3") {
            SupportedGame::C3
        } else if str_eq(second, "ds") {
            SupportedGame::DS
        } else {
            SupportedGame::C3DS
        };
        if tokens.len() > 3 {
            let third = tokens[3].as_str();
            if (str_eq(second, "c3") && str_eq(third, "ds")) || (str_eq(second, "ds") && str_eq(third, "c3")) {
                return SupportedGame::C3DS;
            }
        }
        g
    } else {
        SupportedGame::C3DS
    }
}

fn read_tags_in_line(lines: &Vec<&str>, tokens: &Vec<String>, i: usize, files: &Vec<CreaturesFile>, tags: &mut Vec<Tag>, Ghost(said): Ghost<Seq<TagSaid>>) -> (skip: Option<usize>)
    requires
        i < lines@.len(),
        old(tags)@.len() == said.len(),
        forall|k: int| 0 <= k < said.len() ==> is_said(#[trigger] old(tags)@[k], said[k], files@),
    ensures
        ({
            let (r, sk, ok) = tags_in_line(lines_view(lines@), strings_view(tokens@), 0, i as nat, files@, said);
            &&& ok == skip is Some
            &&& (ok ==> {
                &&& sk == skip->Some_0
                &&& i + sk <= lines@.len()
                &&& final(tags)@.len() == r.len()
                &&& forall|k: int| 0 <= k < r.len() ==> is_said(#[trigger] final(tags)@[k], r[k], files@)
            })
        }),
{
    let ghost lv = lines_view(lines@);
    let ghost t = strings_view(tokens@);
    let ghost mut acc = said;
    let n = lines.len();
    let mut cur: usize = i;
    let mut j: usize = 0;
    assert(forall|m: int| 0 <= m < tokens@.len() ==> t[m] == (#[trigger] tokens@[m])@);
    while j < tokens.len()
        invariant
            j <= tokens@.len(),
            n == lines@.len(),
            i <= cur <= lines@.len(),
            lv == lines_view(lines@),
            t == strings_view(tokens@),
            forall|m: int| 0 <= m < tokens@.len() ==> t[m] == (#[trigger] tokens@[m])@,
            tags@.len() == acc.len(),
            forall|k: int| 0 <= k < acc.len() ==> is_said(#[trigger] tags@[k], acc[k], files@),
            ({
                let (r, more, ok) = tags_in_line(lv, t, j as nat, cur as nat, files@, acc);
                tags_in_line(lv, t, 0, i as nat, files@, said) == (r, ((cur - i) + more) as nat, ok)
            }),
        decreases tokens@.len() - j,
    {
        let w = tokens[j].as_str();
        let has_name = tokens.len() > 1;
        let is_tag_word = str_eq(w, "agent") || str_eq(w, "egg") || str_eq(w, "other");
        if is_tag_word && has_name && cur >= lines.len() {
            return None;
        }
        let ghost before = tags@;
        if str_eq(w, "agent") && has_name {
            let game = game_of(tokens);
            let sub = lines_from(lines, cur + 1);
            let (agent_tag, skip) = super::agent_tag::decode(sub, to_owned(tokens[1].as_str()), game, files.as_slice());
            let mut tag = Tag::Agent(agent_tag);
            let ghost t0 = tag;
            if tag.does_use_all_files() {
                tag.add_files(files.as_slice());
                proof {
                    assert(file_list(tag, FileType::Script) == mapped_list(file_list(t0, FileType::Script), |l: Seq<usize>| l + files_of_kind(files@, FileType::Script, files@.len() as nat)));
                    assert(file_list(tag, FileType::Sprite) == mapped_list(file_list(t0, FileType::Sprite), |l: Seq<usize>| l + files_of_kind(files@, FileType::Sprite, files@.len() as nat)));
                    assert(file_list(tag, FileType::Sound) == mapped_list(file_list(t0, FileType::Sound), |l: Seq<usize>| l + files_of_kind(files@, FileType::Sound, files@.len() as nat)));
                    assert(file_list(tag, FileType::Catalogue) == mapped_list(file_list(t0, FileType::Catalogue), |l: Seq<usize>| l + files_of_kind(files@, FileType::Catalogue, files@.len() as nat)));
                }
            }
            proof {
                lemma_agent_lines_end_bound(lv.skip(cur + 1int), 0);
            }
            tags.push(tag);
            proof {
                let said_tag = TagSaid::Agent(t[1], game_said(t), agent_lines_read(lv.skip(cur + 1int), skip as nat, files@));
                acc = acc.push(said_tag);
                assert forall|k: int| 0 <= k < acc.len() implies is_said(#[trigger] tags@[k], acc[k], files@) by {
                    if k < before.len() {
                        assert(tags@[k] == before[k]);
                    }
                }
            }
            cur = cur + skip;
        } else if str_eq(w, "egg") && has_name {
            let sub = lines_from(lines, cur + 1);
            let (egg_tag, skip) = super::egg_tag::decode(sub, to_owned(tokens[1].as_str()), files.as_slice());
            let mut tag = Tag::Egg(egg_tag);
            let ghost t0 = tag;
            if tag.does_use_all_files() {
                tag.add_files(files.as_slice());
                proof {
                    assert(file_list(tag, FileType::Sprite) == mapped_list(file_list(t0, FileType::Sprite), |l: Seq<usize>| l + files_of_kind(files@, FileType::Sprite, files@.len() as nat)));
                    assert(file_list(tag, FileType::BodyData) == mapped_list(file_list(t0, FileType::BodyData), |l: Seq<usize>| l + files_of_kind(files@, FileType::BodyData, files@.len() as nat)));
                    assert(file_list(tag, FileType::Genetics) == mapped_list(file_list(t0, FileType::Genetics), |l: Seq<usize>| l + files_of_kind(files@, FileType::Genetics, files@.len() as nat)));
                }
            }
            proof {
                lemma_egg_lines_end_bound(lv.skip(cur + 1int), 0);
            }
            tags.push(tag);
            proof {
                let said_tag = TagSaid::Egg(t[1], egg_lines_read(lv.skip(cur + 1int), skip as nat, files@));
                acc = acc.push(said_tag);
                assert forall|k: int| 0 <= k < acc.len() implies is_said(#[trigger] tags@[k], acc[k], files@) by {
                    if k < before.len() {
                        assert(tags@[k] == before[k]);
                    }
                }
            }
            cur = cur + skip;
        } else if str_eq(w, "other") && has_name {
            let block_type = if tokens.len() > 2 {
                to_owned(tokens[2].as_str())
            } else {
                String::new()
            };
            let sub = lines_from(lines, cur + 1);
            let (free_tag, skip) = super::free_tag::decode(sub, to_owned(tokens[1].as_str()), block_type);
            proof {
                lemma_free_lines_bound(lv.skip(cur + 1int), 1, Seq::empty(), Seq::empty(), false);
            }
            let ghost ft = free_tag;
            tags.push(Tag::Free(free_tag));
            proof {
                let (version, contents, _end) = free_tag_lines(lv.skip(cur + 1int), 1, Seq::empty(), Seq::empty(), false);
                assert(ft.name@ == t[1]);
                assert(ft.block_type@ == if t.len() > 2 { t[2] } else { Seq::<char>::empty() });
                assert(ft.version@ == version);
                assert(ft.contents@ == contents);
                assert(tags@[before.len() as int] == Tag::Free(ft));
                acc = acc.push(TagSaid::Free(t[1], if t.len() > 2 { t[2] } else { Seq::empty() }, version, contents));
                assert forall|k: int| 0 <= k < acc.len() implies is_said(#[trigger] tags@[k], acc[k], files@) by {
                    if k < before.len() {
                        assert(tags@[k] == before[k]);
                    }
                }
            }
            cur = cur + skip;
        }
        j = j + 1;
    }
    Some(cur - i)
}

proof fn lemma_tags_in_line_ok(lines: Seq<Seq<char>>, t: Seq<Seq<char>>, j: nat, i: nat, f1: Seq<CreaturesFile>, a1: Seq<TagSaid>, f2: Seq<CreaturesFile>, a2: Seq<TagSaid>)
    ensures
        tags_in_line(lines, t, j, i, f1, a1).1 == tags_in_line(lines, t, j, i, f2, a2).1,
        tags_in_line(lines, t, j, i, f1, a1).2 == tags_in_line(lines, t, j, i, f2, a2).2,
    decreases t.len() - j,
{
    if j < t.len() {
        let sub = lines.skip(i + 1int);
        let w = t[j as int];
        if w == "agent"@ && t.len() > 1 {
            let end = agent_lines_end(sub, 0);
            lemma_tags_in_line_ok(lines, t, j + 1, i + end, f1, a1.push(TagSaid::Agent(t[1], game_said(t), agent_lines_read(sub, end, f1))),
                f2, a2.push(TagSaid::Agent(t[1], game_said(t), agent_lines_read(sub, end, f2))));
        } else if w == "egg"@ && t.len() > 1 {
            let end = egg_lines_end(sub, 0);
            lemma_tags_in_line_ok(lines, t, j + 1, i + end, f1, a1.push(TagSaid::Egg(t[1], egg_lines_read(sub, end, f1))),
                f2, a2.push(TagSaid::Egg(t[1], egg_lines_read(sub, end, f2))));
        } else if w == "other"@ && t.len() > 1 {
            let (version, contents, end) = free_tag_lines(sub, 1, Seq::empty(), Seq::empty(), false);
            let said = TagSaid::Free(t[1], if t.len() > 2 { t[2] } else { Seq::empty() }, version, contents);
            lemma_tags_in_line_ok(lines, t, j + 1, i + end, f1, a1.push(said), f2, a2.push(said));
        } else {
            lemma_tags_in_line_ok(lines, t, j + 1, i, f1, a1, f2, a2);
        }
    }
}

proof fn lemma_tags_said_ok(lines: Seq<Seq<char>>, i: nat, f1: Seq<CreaturesFile>, a1: Seq<TagSaid>, f2: Seq<CreaturesFile>, a2: Seq<TagSaid>)
    ensures
        tags_said(lines, i, f1, a1).1 == tags_said(lines, i, f2, a2).1,
    decreases if i < lines.len() { lines.len() - i } else { 0 },
{
    if i < lines.len() {
        let t = spec_parse_tokens(lines[i as int]);
        lemma_tags_in_line_ok(lines, t, 0, i, f1, a1, f2, a2);
        let (r1, skip, ok) = tags_in_line(lines, t, 0, i, f1, a1);
        let (r2, _skip2, _ok2) = tags_in_line(lines, t, 0, i, f2, a2);
        if ok {
            lemma_tags_said_ok(lines, i + skip + 1, f1, r1, f2, r2);
        }
    }
}

/// Whether reading a source's tags goes through: it does not where a tag word comes on
/// a line after a free tag that took the text's last line.
pub open spec fn source_readable(contents: Seq<char>) -> bool {
    tags_said(text_lines(contents), 0, Seq::empty(), Seq::empty()).1
}

/// What reading the source `contents` gives: the files its `files` sections say, not
/// read yet, and the tags it says, with all the files where a tag uses all.
pub open spec fn decode_result(contents: Seq<char>, d: DecodeResult) -> bool {
    let lv = text_lines(contents);
    let said = tags_said(lv, 0, d.files@, Seq::empty()).0;
    &&& file_descs(d.files@) == files_said(lv, 0, Seq::empty())
    &&& all_unread(d.files@)
    &&& d.tags@.len() == said.len()
    &&& forall|k: int| 0 <= k < said.len() ==> is_said(#[trigger] d.tags@[k], said[k], d.files@)
}

fn str_refs(v: &Vec<String>) -> (r: Vec<&str>)
    ensures
        lines_view(r@) == strings_view(v@),
{
    let mut r: Vec<&str> = Vec::new();
    let mut k: usize = 0;
    while k < v.len()
        invariant
            k <= v@.len(),
            r@.len() == k,
            lines_view(r@) == strings_view(v@).take(k as int),
        decreases v@.len() - k,
    {
        let ghost prev = r@;
        r.push(v[k].as_str());
        assert(lines_view(r@) =~= strings_view(v@).take(k + 1)) by {
            assert forall|m: int| 0 <= m < r@.len() implies #[trigger] lines_view(r@)[m] == strings_view(v@).take(k + 1)[m] by {
                if m < prev.len() {
                    assert(r@[m] == prev[m]);
                    assert(lines_view(prev)[m] == strings_view(v@).take(k as int)[m]);
                }
            }
        }
        k = k + 1;
    }
    assert(strings_view(v@).take(k as int) =~= strings_view(v@));
    r
}

/// Reads a source as `decode` does, where reading it goes through; `None` where it does
/// not (see `source_readable`).
pub fn decode_checked(contents: &str) -> (r: Option<Result<DecodeResult, Error>>)
    ensures
        match r {
            Some(x) => source_readable(contents@) && (x matches Ok(d) && decode_result(contents@, d)),
            None => !source_readable(contents@),
        },
{
    let owned = text_lines_of(contents);
    let lines = str_refs(&owned);
    let ghost lv = lines_view(lines@);
    assert(lv == text_lines(contents@));
    let n = lines.len();
    let mut files: Vec<CreaturesFile> = Vec::new();
    let mut i: usize = 0;
    assert(file_descs(files@) =~= Seq::<FileDesc>::empty());
    while i < n
        invariant
            n == lines@.len(),
            lv == lines_view(lines@),
            i <= n,
            files_said(lv, 0, Seq::empty()) == files_said(lv, i as nat, file_descs(files@)),
            all_unread(files@),
        decreases n - i,
    {
        let tokens = parse_tokens(lines[i]);
        assert(lv[i as int] == lines@[i as int]@);
        let skip = read_files_in_line(&lines, &tokens, i, &mut files);
        i = i + skip + 1;
    }
    let mut tags: Vec<Tag> = Vec::new();
    let ghost mut acc: Seq<TagSaid> = Seq::empty();
    let mut i: usize = 0;
    while i < n
        invariant
            n == lines@.len(),
            lv == lines_view(lines@),
            i <= n,
            file_descs(files@) == files_said(lv, 0, Seq::empty()),
            all_unread(files@),
            lv == text_lines(contents@),
            tags_said(lv, 0, files@, Seq::empty()) == tags_said(lv, i as nat, files@, acc),
            tags@.len() == acc.len(),
            forall|k: int| 0 <= k < acc.len() ==> is_said(#[trigger] tags@[k], acc[k], files@),
        decreases n - i,
    {
        let tokens = parse_tokens(lines[i]);
        assert(lv[i as int] == lines@[i as int]@);
        let ghost before = tags@;
        match read_tags_in_line(&lines, &tokens, i, &files, &mut tags, Ghost(acc)) {
            Some(skip) => {
                let ghost acc_old = acc;
                proof {
                    acc = tags_in_line(lv, strings_view(tokens@), 0, i as nat, files@, acc).0;
                    assert(tags_said(lv, i as nat, files@, acc_old) == tags_said(lv, (i + skip + 1) as nat, files@, acc));
                    if skip >= n - i {
                        assert(tags_said(lv, (i + skip + 1) as nat, files@, acc) == tags_said(lv, n as nat, files@, acc));
                    }
                }
                if skip >= n - i {
                    i = n;
                } else {
                    i = i + skip + 1;
                }
            },
            None => {
                proof {
                    lemma_tags_said_ok(lv, 0, files@, Seq::empty(), Seq::empty(), Seq::empty());
                    assert(tags_said(lv, i as nat, files@, acc).1 == false);
                }
                return None;
            },
        }
    }
    proof {
        lemma_tags_said_ok(lv, 0, files@, Seq::empty(), Seq::empty(), Seq::empty());
    }
    Some(Ok(DecodeResult { tags, files }))
}

/// Reads a source: first the files of its `files` sections, then its tags (each
/// `agent`, `egg` and `other` word with a name reads one from the lines after it);
/// each agent or egg that uses all files gets all the files of its kinds.
pub fn decode(contents: &str) -> (r: Result<DecodeResult, Error>)
    requires
        source_readable(contents@),
    ensures
        r matches Ok(d) && decode_result(contents@, d),
{
    match decode_checked(contents) {
        Some(r) => r,
        None => Ok(DecodeResult { tags: Vec::new(), files: Vec::new() }),
    }
}

} // verus!
