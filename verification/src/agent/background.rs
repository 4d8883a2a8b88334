//! Backgrounds listed by file name: BLK files, or PNG images to be turned into BLK.
use vstd::prelude::*;
use vstd::std_specs::iter::IteratorSpec;
use crate::pattern::{regex_group, has_inner_dot};
use crate::reorder::{moved_up, moved_down, removed, move_up_in, move_down_in, remove_in};
use crate::text::str_eq;
use super::{Filename, FilenameView, filename_pattern, joined_name, spec_filename};

verus! {

/// A background: a BLK file, or a PNG image and the BLK file it becomes.
pub enum Background {
    Blk { filename: Filename },
    Png { filename: Filename, source: Filename },
}

/// The file name that `Filename::new` makes of `s`.
pub open spec fn parsed_filename(s: Seq<char>) -> FilenameView {
    spec_filename(s, regex_group(filename_pattern(), s, 1), regex_group(filename_pattern(), s, 2))
}

/// The file a background is read from: the BLK file, or the image.
pub open spec fn background_filename(b: Background) -> Seq<char> {
    match b {
        Background::Blk { filename } => filename@.string,
        Background::Png { source, .. } => source@.string,
    }
}

impl Background {
    /// A background in the file `filename`: a BLK file where its extension is `blk`,
    /// else an image whose BLK file has its title and the extension `blk`.
    pub fn new(filename: &str) -> (r: Background)
        ensures
            ({
                let f = parsed_filename(filename@);
                if f.extension == "blk"@ {
                    r matches Background::Blk { filename: b } && b@ == f
                } else {
                    r matches Background::Png { filename: b, source: s } && s@ == f
                        && b@ == (FilenameView { string: joined_name(f.title, "blk"@), title: f.title, extension: "blk"@ })
                }
            }),
            has_inner_dot(filename@) ==> background_filename(r) == filename@,
    {
        let filename = Filename::new(filename);
        if str_eq(filename.extension.as_str(), "blk") {
            Background::Blk { filename }
        } else {
            Background::Png { filename: filename.with_extension("blk"), source: filename }
        }
    }

    /// The file the background is read from: the BLK file, or the image.
    pub fn get_filename(&self) -> (r: String)
        ensures
            r@ == background_filename(*self),
    {
        match self {
            Background::Blk { filename } => filename.to_string(),
            Background::Png { source, .. } => source.to_string(),
        }
    }

    /// The title of the background's BLK file.
    pub fn get_title(&self) -> (r: String)
        ensures
            r@ == match *self {
                Background::Blk { filename } => filename@.title,
                Background::Png { filename, .. } => filename@.title,
            },
    {
        match self {
            Background::Blk { filename } => filename.title.clone(),
            Background::Png { filename, .. } => filename.title.clone(),
        }
    }
}

/// A list of backgrounds.
pub struct BackgroundList(Vec<Background>);

impl View for BackgroundList {
    type V = Seq<Background>;

    closed spec fn view(&self) -> Seq<Background> {
        self.0@
    }
}

impl BackgroundList {
    /// An empty list.
    pub fn new() -> (r: BackgroundList)
        ensures
            r@ == Seq::<Background>::empty(),
    {
        BackgroundList(Vec::new())
    }

    /// Whether the list is empty.
    pub fn is_empty(&self) -> (r: bool)
        ensures
            r == (self@.len() == 0),
    {
        self.0.len() == 0
    }

    /// The number of backgrounds.
    pub fn len(&self) -> (r: usize)
        ensures
            r == self@.len(),
    {
        self.0.len()
    }

    /// An iterator over the backgrounds, in order.
    pub fn iter(&self) -> (r: std::slice::Iter<'_, Background>)
        ensures
            IteratorSpec::remaining(&r) == self@.as_ref(),
    {
        self.0.iter()
    }

    /// The background at `index`, where there is one.
    pub fn get(&self, index: usize) -> (r: Option<&Background>)
        ensures
            index < self@.len() ==> r == Some(&self@[index as int]),
            index >= self@.len() ==> r is None,
    {
        if index < self.0.len() {
            Some(&self.0[index])
        } else {
            None
        }
    }

    /// The background at `index`, to change, where there is one.
    pub fn get_mut(&mut self, index: usize) -> (r: Option<&mut Background>)
        ensures
            index < old(self)@.len() ==> r is Some && *r->0 == old(self)@[index as int]
                && final(self)@ == old(self)@.update(index as int, *final(r->0)),
            index >= old(self)@.len() ==> r is None && final(self)@ == old(self)@,
    {
        if index < self.0.len() {
            Some(&mut self.0[index])
        } else {
            None
        }
    }

    /// Adds a background at the end.
    pub fn push(&mut self, background: Background)
        ensures
            final(self)@ == old(self)@.push(background),
    {
        self.0.push(background)
    }

    /// Removes the background at `index`; nothing happens where there is none.
    pub fn remove(&mut self, index: usize)
        ensures
            final(self)@ == removed(old(self)@, index as int),
    {
        remove_in(&mut self.0, index)
    }

    /// Moves the background at `index` one place up; nothing happens where it cannot move.
    pub fn move_up(&mut self, index: usize)
        ensures
            final(self)@ == moved_up(old(self)@, index as int),
    {
        move_up_in(&mut self.0, index)
    }

    /// Moves the background at `index` one place down; nothing happens where it cannot move.
    pub fn move_down(&mut self, index: usize)
        ensures
            final(self)@ == moved_down(old(self)@, index as int),
    {
        move_down_in(&mut self.0, index)
    }
}

} // verus!
