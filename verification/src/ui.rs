//! The state of the editor window: the open source's tags and files, the selected tag
//! and the selected entry among its files, and the alerts shown.
use vstd::prelude::*;
use crate::agent::file::CreaturesFile;
use crate::agent::tag::Tag;
use crate::text::{to_owned, push_str};

verus! {

/// A message shown to the user: an error, or news of something done.
pub enum Alert {
    Error(String),
    Update(String),
}

/// Which entry among the selected tag's files is selected: none, or the place in the
/// tag's list of scripts, sprites, sounds, catalogues, genetics or body data.
#[derive(Clone, Copy, PartialEq, Eq, Structural, Debug)]
pub enum Selection {
    Nothing,
    Script(usize),
    Sprite(usize),
    Sound(usize),
    Catalogue(usize),
    Genetics(usize),
    BodyData(usize),
}

/// The editor window's state.
pub struct Main {
    pub filename: String,
    pub path: String,
    pub tags: Vec<Tag>,
    pub files: Vec<CreaturesFile>,
    pub selected_tag_index: Option<usize>,
    pub selection: Selection,
    pub alerts: Vec<Alert>,
    pub modified: bool,
    pub is_adding_existing_file: bool,
}

/// The selected tag, where a tag is selected and it is there.
pub open spec fn selected_tag(m: Main) -> Option<Tag> {
    match m.selected_tag_index {
        Some(i) => if i < m.tags@.len() { Some(m.tags@[i as int]) } else { None },
        None => None,
    }
}

/// The entry at `index` of a list, where there is one.
pub open spec fn entry_at(list: Seq<usize>, index: usize) -> Option<usize> {
    if index < list.len() { Some(list[index as int]) } else { None }
}

/// The place of the selected file: the selected entry of the selected tag's list of
/// that kind (scripts, sprites, sounds and catalogues for an agent; sprites, genetics
/// and body data for an egg), where there is one.
pub open spec fn selected_file_index(m: Main) -> Option<usize> {
    match selected_tag(m) {
        Some(Tag::Agent(a)) => match m.selection {
            Selection::Script(i) => entry_at(a.scripts@, i),
            Selection::Sprite(i) => entry_at(a.sprites@, i),
            Selection::Sound(i) => entry_at(a.sounds@, i),
            Selection::Catalogue(i) => entry_at(a.catalogues@, i),
            _ => None,
        },
        Some(Tag::Egg(e)) => match m.selection {
            Selection::Sprite(i) => entry_at(e.sprites@, i),
            Selection::Genetics(i) => entry_at(e.genetics@, i),
            Selection::BodyData(i) => entry_at(e.bodydata@, i),
            _ => None,
        },
        _ => None,
    }
}

/// The text of the window's title: `Theist`, then the file's name, marked with `*`
/// where it has changed since it was saved.
pub open spec fn title_text(filename: Seq<char>, modified: bool) -> Seq<char> {
    if filename.len() == 0 {
        "Theist"@
    } else if modified {
        "Theist - "@ + filename + "*"@
    } else {
        "Theist - "@ + filename
    }
}

fn entry_of(list: &Vec<usize>, index: usize) -> (r: Option<usize>)
    ensures
        r == entry_at(list@, index),
{
    if index < list.len() { Some(list[index]) } else { None }
}

impl Main {
    /// A window with nothing open and nothing selected.
    pub fn new() -> (r: Main)
        ensures
            r.filename@ == Seq::<char>::empty(),
            r.path@ == Seq::<char>::empty(),
            r.tags@.len() == 0,
            r.files@.len() == 0,
            r.selected_tag_index is None,
            r.selection == Selection::Nothing,
            r.alerts@.len() == 0,
            !r.modified,
            !r.is_adding_existing_file,
    {
        Main {
            filename: String::new(),
            path: String::new(),
            tags: Vec::new(),
            files: Vec::new(),
            selected_tag_index: None,
            selection: Selection::Nothing,
            alerts: Vec::new(),
            modified: false,
            is_adding_existing_file: false,
        }
    }

    /// The window's title.
    pub fn title(&self) -> (r: String)
        ensures
            r@ == title_text(self.filename@, self.modified),
    {
        if self.filename.as_str().unicode_len() == 0 {
            to_owned("Theist")
        } else {
            let mut t = to_owned("Theist - ");
            push_str(&mut t, self.filename.as_str());
            if self.modified {
                push_str(&mut t, "*");
            }
            t
        }
    }

    /// Adds an alert with the given text: an error, or else news.
    pub fn add_alert(&mut self, contents: &String, is_error: bool)
        ensures
            final(self).alerts@.len() == old(self).alerts@.len() + 1,
            forall|i: int| 0 <= i < old(self).alerts@.len() ==> #[trigger] final(self).alerts@[i] == old(self).alerts@[i],
            if is_error {
                final(self).alerts@.last() matches Alert::Error(m) && m@ == contents@
            } else {
                final(self).alerts@.last() matches Alert::Update(m) && m@ == contents@
            },
            final(self).tags == old(self).tags,
            final(self).files == old(self).files,
            final(self).selected_tag_index == old(self).selected_tag_index,
            final(self).selection == old(self).selection,
    {
        let text = to_owned(contents.as_str());
        self.alerts.push(if is_error { Alert::Error(text) } else { Alert::Update(text) });
    }

    /// The selected tag, where a tag is selected and it is there.
    pub fn get_selected_tag(&self) -> (r: Option<&Tag>)
        ensures
            match r {
                Some(t) => selected_tag(*self) == Some(*t),
                None => selected_tag(*self) is None,
            },
    {
        match self.selected_tag_index {
            Some(tag_index) => if tag_index < self.tags.len() {
                Some(&self.tags[tag_index])
            } else {
                None
            },
            None => None,
        }
    }

    /// The selected tag, to change, where a tag is selected and it is there.
    pub fn get_selected_tag_mut(&mut self) -> (r: Option<&mut Tag>)
        ensures
            match r {
                Some(t) => selected_tag(*old(self)) == Some(*t) && final(self).tags@ == old(self).tags@.update(
                    old(self).selected_tag_index->Some_0 as int,
                    *final(t),
                ) && final(self).files == old(self).files && final(self).selected_tag_index == old(self).selected_tag_index
                    && final(self).selection == old(self).selection,
                None => selected_tag(*old(self)) is None && *final(self) == *old(self),
            },
    {
        match self.selected_tag_index {
            Some(tag_index) => if tag_index < self.tags.len() {
                Some(&mut self.tags[tag_index])
            } else {
                None
            },
            None => None,
        }
    }

    /// The place of the selected file: the selected entry of the selected tag's list of
    /// that kind, where there is one.
    pub fn get_selected_file_index(&self) -> (r: Option<usize>)
        ensures
            r == selected_file_index(*self),
    {
        match self.get_selected_tag() {
            Some(tag) => match tag {
                Tag::Agent(agent_tag) => match self.selection {
                    Selection::Script(index) => entry_of(&agent_tag.scripts, index),
                    Selection::Sprite(index) => entry_of(&agent_tag.sprites, index),
                    Selection::Sound(index) => entry_of(&agent_tag.sounds, index),
                    Selection::Catalogue(index) => entry_of(&agent_tag.catalogues, index),
                    _ => None,
                },
                Tag::Egg(egg_tag) => match self.selection {
                    Selection::Sprite(index) => entry_of(&egg_tag.sprites, index),
                    Selection::Genetics(index) => entry_of(&egg_tag.genetics, index),
                    Selection::BodyData(index) => entry_of(&egg_tag.bodydata, index),
                    _ => None,
                },
                _ => None,
            },
            None => None,
        }
    }

    /// The selected file, where there is one among the files.
    pub fn get_selected_file(&self) -> (r: Option<&CreaturesFile>)
        ensures
            match r {
                Some(f) => selected_file_index(*self) matches Some(i) && i < self.files@.len() && *f == self.files@[i as int],
                None => !(selected_file_index(*self) matches Some(i) && i < self.files@.len()),
            },
    {
        match self.get_selected_file_index() {
            Some(file_index) => if file_index < self.files.len() {
                Some(&self.files[file_index])
            } else {
                None
            },
            None => None,
        }
    }

    /// The selected file, to change, where there is one among the files.
    pub fn get_selected_file_mut(&mut self) -> (r: Option<&mut CreaturesFile>)
        ensures
            match r {
                Some(f) => selected_file_index(*old(self)) matches Some(i) && i < old(self).files@.len()
                    && *f == old(self).files@[i as int]
                    && final(self).files@ == old(self).files@.update(i as int, *final(f))
                    && final(self).tags == old(self).tags,
                None => !(selected_file_index(*old(self)) matches Some(i) && i < old(self).files@.len())
                    && *final(self) == *old(self),
            },
    {
        match self.get_selected_file_index() {
            Some(file_index) => if file_index < self.files.len() {
                Some(&mut self.files[file_index])
            } else {
                None
            },
            None => None,
        }
    }
}

} // verus!
