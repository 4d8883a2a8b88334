//! Free tags in a Theist source: an `other` line with the tag's name and block type,
//! an optional `version` line, and the contents between two lines of three quotes.
use vstd::prelude::*;
use crate::agent::free_tag::FreeTag;
use crate::text::{push_str, push_char, str_eq, trim, trimmed, strings_view, to_owned};
use super::decode::{parse_tokens, spec_parse_tokens};

verus! {

/// Three double quotes, which open and close a free tag's contents.
pub open spec fn triple_quote() -> Seq<char> {
    seq!['"', '"', '"']
}

/// The source text of a free tag.
pub open spec fn free_tag_source(name: Seq<char>, block_type: Seq<char>, version: Seq<char>, contents: Seq<char>) -> Seq<char> {
    "other \""@ + name + "\" "@ + block_type + "\n"@ + (if version.len() > 0 {
        "\tversion \""@ + version + "\"\n"@
    } else {
        Seq::empty()
    }) + triple_quote() + contents + triple_quote() + "\n"@
}

/// Writes a free tag as source text.
pub fn encode(tag: &FreeTag) -> (r: String)
    ensures
        r@ == free_tag_source(tag.name@, tag.block_type@, tag.version@, tag.contents@),
{
    let mut content = String::new();
    push_str(&mut content, "other \"");
    push_str(&mut content, tag.name.as_str());
    push_str(&mut content, "\" ");
    push_str(&mut content, tag.block_type.as_str());
    push_str(&mut content, "\n");
    let ghost head = content@;
    if tag.version.as_str().unicode_len() > 0 {
        push_str(&mut content, "\tversion \"");
        push_str(&mut content, tag.version.as_str());
        push_str(&mut content, "\"\n");
    }
    proof {
        reveal_strlit("\"\"\"");
    }
    push_str(&mut content, "\"\"\"");
    push_str(&mut content, tag.contents.as_str());
    push_str(&mut content, "\"\"\"");
    push_char(&mut content, '\n');
    proof {
        reveal_strlit("\n");
    }
    assert(content@ =~= free_tag_source(tag.name@, tag.block_type@, tag.version@, tag.contents@));
    content
}

/// The characters of each line.
pub open spec fn lines_view(lines: Seq<&str>) -> Seq<Seq<char>> {
    Seq::new(lines.len(), |i: int| lines[i]@)
}

/// Reading a free tag's lines from line `i` on, with the version and contents read so
/// far and whether the contents have begun: contents lines are kept, each with a line
/// break, until a line that is three quotes once trimmed; before them, such a line
/// begins the contents, a `version` line sets the version, and any other line ends the
/// tag. Gives the version, the contents and the line where reading stopped.
pub open spec fn free_tag_lines(lines: Seq<Seq<char>>, i: nat, version: Seq<char>, contents: Seq<char>, started: bool) -> (Seq<char>, Seq<char>, nat)
    decreases lines.len() - i,
{
    if i >= lines.len() {
        (version, contents, i)
    } else if started {
        if trimmed(lines[i as int]) == triple_quote() {
            (version, contents, i)
        } else {
            free_tag_lines(lines, i + 1, version, contents + lines[i as int].push('\n'), true)
        }
    } else if trimmed(lines[i as int]) == triple_quote() {
        free_tag_lines(lines, i + 1, version, contents, true)
    } else {
        let tokens = spec_parse_tokens(lines[i as int]);
        if tokens.len() > 0 && tokens[0] == "version"@ {
            free_tag_lines(lines, i + 1, if tokens.len() > 1 { tokens[1] } else { version }, contents, false)
        } else {
            (version, contents, i)
        }
    }
}

/// Reads a free tag from the lines after its `other` line (the first of `lines` is
/// that line), giving the tag and the number of lines it takes, counting the first.
pub fn decode(lines: Vec<&str>, name: String, block_type: String) -> (r: (FreeTag, usize))
    ensures
        ({
            let (version, contents, i) = free_tag_lines(lines_view(lines@), 1, Seq::empty(), Seq::empty(), false);
            &&& r.0.name@ == name@
            &&& r.0.block_type@ == block_type@
            &&& r.0.version@ == version
            &&& r.0.contents@ == contents
            &&& r.1 == i
        }),
{
    let ghost lv = lines_view(lines@);
    let mut version = String::new();
    let mut contents = String::new();
    let mut contents_started = false;
    let mut i: usize = 1;
    let mut done = false;
    while i < lines.len() && !done
        invariant
            1 <= i,
            lv == lines_view(lines@),
            free_tag_lines(lv, 1, Seq::empty(), Seq::empty(), false)
                == free_tag_lines(lv, i as nat, version@, contents@, contents_started),
            done ==> free_tag_lines(lv, i as nat, version@, contents@, contents_started) == (version@, contents@, i as nat),
        decreases lines.len() - i, if done { 0int } else { 1int },
    {
        proof {
            reveal_strlit("\"\"\"");
            reveal_strlit("version");
            assert("\"\"\""@ =~= triple_quote());
        }
        let line = lines[i];
        assert(lv[i as int] == line@);
        let t = trim(line);
        assert(t@ == trimmed(lv[i as int]));
        if contents_started {
            if str_eq(t.as_str(), "\"\"\"") {
                done = true;
            } else {
                let ghost c0 = contents@;
                push_str(&mut contents, line);
                push_char(&mut contents, '\n');
                assert(contents@ =~= c0 + line@.push('\n'));
                i = i + 1;
            }
        } else if str_eq(t.as_str(), "\"\"\"") {
            contents_started = true;
            i = i + 1;
        } else {
            let tokens = parse_tokens(line);
            assert(strings_view(tokens@).len() == tokens@.len());
            if tokens.len() > 0 && str_eq(tokens[0].as_str(), "version") {
                assert(strings_view(tokens@)[0] == tokens@[0]@);
                if tokens.len() > 1 {
                    assert(strings_view(tokens@)[1] == tokens@[1]@);
                    version = to_owned(tokens[1].as_str());
                }
                i = i + 1;
            } else {
                done = true;
            }
        }
    }
    (FreeTag { name, version, block_type, contents }, i)
}

} // verus!
