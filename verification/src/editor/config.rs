//! The editor's settings: its color theme, kept in a `theist.conf` file of `key: value`
//! lines.
use vstd::prelude::*;
use crate::text::{split, pieces, trim, trimmed, trim_start, trim_end, str_eq, strings_view, push_str, to_owned, lemma_pieces_single, lemma_pieces_extend};

verus! {

/// The editor's settings.
pub struct ConfigState {
    pub theme: Theme,
}

/// The settings as shown to the interface.
pub struct ConfigInfo {
    pub theme: String,
}

/// A color theme.
#[derive(Clone, Copy, Debug, PartialEq, Eq, Structural)]
pub enum Theme {
    Dark,
    Light,
    Purple,
}

/// The name of a theme.
pub open spec fn theme_name(t: Theme) -> Seq<char> {
    match t {
        Theme::Dark => "dark"@,
        Theme::Light => "light"@,
        Theme::Purple => "purple"@,
    }
}

/// The theme a name picks: `light` and `purple` pick theirs, anything else the dark one.
pub open spec fn theme_named(name: Seq<char>) -> Theme {
    if name == "light"@ {
        Theme::Light
    } else if name == "purple"@ {
        Theme::Purple
    } else {
        Theme::Dark
    }
}

impl Theme {
    /// The theme's name: `dark`, `light` or `purple`.
    pub fn to_string(&self) -> (r: String)
        ensures
            r@ == theme_name(*self),
    {
        match self {
            Theme::Dark => to_owned("dark"),
            Theme::Light => to_owned("light"),
            Theme::Purple => to_owned("purple"),
        }
    }
}

/// Sets the theme that a name picks.
pub fn set_theme(config_state: &mut ConfigState, new_theme: &str)
    ensures
        final(config_state).theme == theme_named(new_theme@),
{
    config_state.theme = if str_eq(new_theme, "light") {
        Theme::Light
    } else if str_eq(new_theme, "purple") {
        Theme::Purple
    } else {
        Theme::Dark
    };
}

/// The theme names set by the first `k` lines of a settings file: for each line whose
/// text before its first `:`, trimmed, is `theme`, the text between its first and second
/// `:`, trimmed.
pub open spec fn theme_values(lines: Seq<Seq<char>>, k: nat) -> Seq<Seq<char>>
    decreases k,
{
    if k == 0 {
        Seq::empty()
    } else {
        let parts = pieces(lines[k - 1], ':');
        theme_values(lines, (k - 1) as nat) + if parts.len() > 1 && trimmed(parts[0]) == "theme"@ {
            seq![trimmed(parts[1])]
        } else {
            Seq::empty()
        }
    }
}

/// The theme names that a settings file sets, in order (the last one counts).
pub fn theme_settings(config_contents: &str) -> (r: Vec<String>)
    ensures
        ({
            let lines = pieces(config_contents@, '\n');
            strings_view(r@) == theme_values(lines, lines.len())
        }),
{
    let lines = split(config_contents, '\n');
    let ghost lv = strings_view(lines@);
    let mut values: Vec<String> = Vec::new();
    let mut i: usize = 0;
    while i < lines.len()
        invariant
            i <= lines@.len(),
            lv == strings_view(lines@),
            strings_view(values@) == theme_values(lv, i as nat),
        decreases lines@.len() - i,
    {
        let parts = split(lines[i].as_str(), ':');
        assert(lv[i as int] == lines@[i as int]@);
        if parts.len() > 1 {
            let key = trim(parts[0].as_str());
            assert(strings_view(parts@)[0] == parts@[0]@);
            assert(strings_view(parts@)[1] == parts@[1]@);
            if str_eq(key.as_str(), "theme") {
                let ghost before = values@;
                values.push(trim(parts[1].as_str()));
                assert(strings_view(values@) =~= strings_view(before).push(values@.last()@));
            }
        }
        i = i + 1;
    }
    values
}

/// The text of a settings file for the given settings.
pub fn config_file_contents(config_state: &ConfigState) -> (r: String)
    ensures
        r@ == "theme: "@ + theme_name(config_state.theme),
{
    let mut r = to_owned("theme: ");
    push_str(&mut r, config_state.theme.to_string().as_str());
    r
}

/// Reading back the settings file written for a theme sets that theme, and only it.
pub proof fn lemma_config_round_trip(t: Theme)
    ensures
        ({
            let lines = pieces("theme: "@ + theme_name(t), '\n');
            &&& theme_values(lines, lines.len()) == seq![theme_name(t)]
            &&& theme_named(theme_name(t)) == t
        }),
{
    reveal_strlit("theme: ");
    reveal_strlit("theme");
    reveal_strlit("dark");
    reveal_strlit("light");
    reveal_strlit("purple");
    let name = theme_name(t);
    let text = "theme: "@ + name;
    assert(!text.contains('\n')) by {
        if text.contains('\n') {
            let i = choose|i: int| 0 <= i < text.len() && text[i] == '\n';
            if i >= 7 {
                assert(name[i - 7] == '\n');
            }
        }
    }
    lemma_pieces_single(text, '\n');
    let lines = pieces(text, '\n');
    assert(lines.len() == 1);
    let key = "theme"@;
    let value = seq![' '] + name;
    assert(text =~= key.push(':') + value);
    assert(!key.contains(':'));
    assert(!value.contains(':')) by {
        if value.contains(':') {
            let i = choose|i: int| 0 <= i < value.len() && value[i] == ':';
            assert(name[i - 1] == ':');
        }
    }
    lemma_pieces_single(key, ':');
    assert(key.push(':').drop_last() =~= key);
    assert(key.push(':').last() == ':');
    assert(pieces(key.push(':'), ':') == seq![key].push(Seq::<char>::empty()));
    lemma_pieces_extend(key.push(':'), value, ':');
    let parts = pieces(text, ':');
    assert(parts =~= seq![key, value]);
    assert(trim_start(key) == key);
    assert(trim_end(key) == key);
    assert(trimmed(key) == key);
    assert(value.drop_first() =~= name);
    assert(trim_start(name) == name);
    assert(trim_start(value) == name);
    assert(trim_end(name) == name);
    assert(trimmed(value) == name);
    assert(theme_values(lines, 0) =~= Seq::<Seq<char>>::empty());
    assert(theme_values(lines, 1) =~= seq![name]);
}

} // verus!
