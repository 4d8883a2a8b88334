//! The agents that Theist sources describe: their tags, the files they carry, and
//! the names of those files.
use vstd::prelude::*;
use crate::pattern::{capture_group, regex_group, has_inner_dot, last_inner_dot};
use crate::text::{push_char, push_str, str_eq, to_owned};

pub mod tag;
pub mod agent_tag;
pub mod egg_tag;
pub mod free_tag;
pub mod file;
pub mod script;
pub mod background;
pub mod sprite;
pub mod sound;
pub mod catalogue;
pub mod bodydata;
pub mod body_data;
pub mod genetics;
pub mod split;

verus! {

/// The pattern that splits a file name into its title and its extension.
pub open spec fn filename_pattern() -> Seq<char> {
    "^(.+)\\.(.+)$"@
}

/// A file name, with its title and extension.
pub struct Filename {
    pub string: String,
    pub title: String,
    pub extension: String,
}

/// A file name's value.
pub struct FilenameView {
    pub string: Seq<char>,
    pub title: Seq<char>,
    pub extension: Seq<char>,
}

impl View for Filename {
    type V = FilenameView;

    open spec fn view(&self) -> FilenameView {
        FilenameView { string: self.string@, title: self.title@, extension: self.extension@ }
    }
}

/// The file name made of a title and an extension.
pub open spec fn joined_name(title: Seq<char>, extension: Seq<char>) -> Seq<char> {
    title.push('.') + extension
}

/// The file name `s`, split into the title and the extension that were captured from it;
/// an empty name where either is missing.
pub open spec fn spec_filename(s: Seq<char>, title: Option<Seq<char>>, extension: Option<Seq<char>>) -> FilenameView {
    match (title, extension) {
        (Some(t), Some(e)) => FilenameView { string: s, title: t, extension: e },
        _ => FilenameView { string: Seq::empty(), title: Seq::empty(), extension: Seq::empty() },
    }
}

impl Filename {
    /// Splits a file name at its last `.` that has something on each side, by the
    /// pattern `^(.+)\.(.+)$`; an empty name where it does not match.
    pub fn new(filename_string: &str) -> (r: Filename)
        ensures
            r@ == spec_filename(
                filename_string@,
                regex_group(filename_pattern(), filename_string@, 1),
                regex_group(filename_pattern(), filename_string@, 2),
            ),
            has_inner_dot(filename_string@) ==> r@ == (FilenameView {
                string: filename_string@,
                title: filename_string@.take(last_inner_dot(filename_string@)),
                extension: filename_string@.skip(last_inner_dot(filename_string@) + 1),
            }),
    {
        let pattern = "^(.+)\\.(.+)$";
        proof {
            assert(pattern@ == filename_pattern());
        }
        let title = capture_group(pattern, filename_string, 1);
        let extension = capture_group(pattern, filename_string, 2);
        Filename::from_captures(filename_string, title, extension)
    }

    /// The file name `filename_string`, given the title and extension captured from it.
    pub fn from_captures(filename_string: &str, title: Option<String>, extension: Option<String>) -> (r: Filename)
        ensures
            r@ == spec_filename(
                filename_string@,
                match title { Some(t) => Some(t@), None => None },
                match extension { Some(e) => Some(e@), None => None },
            ),
    {
        match (title, extension) {
            (Some(t), Some(e)) => Filename { string: to_owned(filename_string), title: t, extension: e },
            _ => Filename { string: String::new(), title: String::new(), extension: String::new() },
        }
    }

    /// Gives the file name a new title, keeping its extension.
    pub fn set_title(&mut self, new_title: String)
        ensures
            final(self)@ == (FilenameView {
                string: joined_name(new_title@, old(self)@.extension),
                title: new_title@,
                extension: old(self)@.extension,
            }),
    {
        let mut string = to_owned(new_title.as_str());
        push_char(&mut string, '.');
        push_str(&mut string, self.extension.as_str());
        self.title = new_title;
        self.string = string;
    }

    /// The file name with the same title and another extension.
    pub fn with_extension(&self, new_extension: &str) -> (r: Filename)
        ensures
            r@ == (FilenameView {
                string: joined_name(self@.title, new_extension@),
                title: self@.title,
                extension: new_extension@,
            }),
    {
        let mut string = to_owned(self.title.as_str());
        push_char(&mut string, '.');
        push_str(&mut string, new_extension);
        Filename { string, title: to_owned(self.title.as_str()), extension: to_owned(new_extension) }
    }

    /// The whole file name.
    pub fn to_string(&self) -> (r: String)
        ensures
            r@ == self@.string,
    {
        to_owned(self.string.as_str())
    }

    /// A copy of the file name.
    pub fn copy(&self) -> (r: Filename)
        ensures
            r@ == self@,
    {
        Filename {
            string: to_owned(self.string.as_str()),
            title: to_owned(self.title.as_str()),
            extension: to_owned(self.extension.as_str()),
        }
    }
}

/// The games that something is made for.
#[derive(Clone, Copy, PartialEq, Eq, Structural, Debug)]
pub enum SupportedGame {
    C3,
    DS,
    C3DS,
}

/// The game that a name gives: `c3` or `C3` for Creatures 3, `ds` or `DS` for Docking
/// Station, anything else for both.
pub open spec fn spec_supported_game(s: Seq<char>) -> SupportedGame {
    if s == "c3"@ || s == "C3"@ {
        SupportedGame::C3
    } else if s == "ds"@ || s == "DS"@ {
        SupportedGame::DS
    } else {
        SupportedGame::C3DS
    }
}

/// The short name of a game setting.
pub open spec fn supported_game_name(g: SupportedGame) -> Seq<char> {
    match g {
        SupportedGame::C3 => "c3"@,
        SupportedGame::DS => "ds"@,
        SupportedGame::C3DS => "c3ds"@,
    }
}

impl SupportedGame {
    /// The game that a name gives.
    pub fn new(s: &str) -> (r: SupportedGame)
        ensures
            r == spec_supported_game(s@),
    {
        if str_eq(s, "c3") || str_eq(s, "C3") {
            SupportedGame::C3
        } else if str_eq(s, "ds") || str_eq(s, "DS") {
            SupportedGame::DS
        } else {
            SupportedGame::C3DS
        }
    }

    /// The short name: `c3`, `ds` or `c3ds`.
    pub fn to_string(&self) -> (r: String)
        ensures
            r@ == supported_game_name(*self),
    {
        match self {
            SupportedGame::C3 => to_owned("c3"),
            SupportedGame::DS => to_owned("ds"),
            SupportedGame::C3DS => to_owned("c3ds"),
        }
    }
}

} // verus!
