//! Scripts listed by file name, with the game each is for.
use vstd::prelude::*;
use vstd::std_specs::iter::IteratorSpec;
use crate::pattern::regex_group;
use crate::reorder::{moved_up, moved_down, removed, move_up_in, move_down_in, remove_in};
use crate::text::str_eq;
use super::{Filename, SupportedGame, filename_pattern, spec_filename, spec_supported_game};

verus! {

/// A script, named by its file.
pub enum Script {
    File { filename: Filename, supported_game: SupportedGame },
}

/// The file name of a script.
pub open spec fn script_filename(s: Script) -> Seq<char> {
    match s {
        Script::File { filename, .. } => filename@.string,
    }
}

/// The game that a number picks: 1 for Creatures 3, 2 for Docking Station, any other
/// for both.
pub open spec fn numbered_game(n: usize) -> SupportedGame {
    if n == 1 {
        SupportedGame::C3
    } else if n == 2 {
        SupportedGame::DS
    } else {
        SupportedGame::C3DS
    }
}

impl Script {
    /// A script in the file `filename`, for the game that `supported_game` names.
    pub fn new(filename: &str, supported_game: &str) -> (r: Script)
        ensures
            match r {
                Script::File { filename: f, supported_game: g } => f@ == spec_filename(
                    filename@,
                    regex_group(filename_pattern(), filename@, 1),
                    regex_group(filename_pattern(), filename@, 2),
                ) && g == spec_supported_game(supported_game@),
            },
    {
        Script::File { filename: Filename::new(filename), supported_game: SupportedGame::new(supported_game) }
    }

    /// The script's file name.
    pub fn get_filename(&self) -> (r: String)
        ensures
            r@ == script_filename(*self),
    {
        match self {
            Script::File { filename, .. } => filename.to_string(),
        }
    }

    /// Sets the game the script is for, by number.
    pub fn set_supported_game(&mut self, new_supported_game: usize)
        ensures
            match (*old(self), *final(self)) {
                (Script::File { filename: f0, .. }, Script::File { filename: f1, supported_game: g1 }) =>
                    f1 == f0 && g1 == numbered_game(new_supported_game),
            },
    {
        let Script::File { supported_game, .. } = self;
        *supported_game = if new_supported_game == 1 {
            SupportedGame::C3
        } else if new_supported_game == 2 {
            SupportedGame::DS
        } else {
            SupportedGame::C3DS
        };
    }
}

/// A list of scripts.
pub struct ScriptList(Vec<Script>);

impl View for ScriptList {
    type V = Seq<Script>;

    closed spec fn view(&self) -> Seq<Script> {
        self.0@
    }
}

impl ScriptList {
    /// An empty list.
    pub fn new() -> (r: ScriptList)
        ensures
            r@ == Seq::<Script>::empty(),
    {
        ScriptList(Vec::new())
    }

    /// Whether the list is empty.
    pub fn is_empty(&self) -> (r: bool)
        ensures
            r == (self@.len() == 0),
    {
        self.0.len() == 0
    }

    /// The number of scripts.
    pub fn len(&self) -> (r: usize)
        ensures
            r == self@.len(),
    {
        self.0.len()
    }

    /// Whether a script of the list is in the file `filename`.
    pub fn includes(&self, filename: &String) -> (r: bool)
        ensures
            r == exists|i: int| 0 <= i < self@.len() && script_filename(#[trigger] self@[i]) == filename@,
    {
        let mut i: usize = 0;
        while i < self.0.len()
            invariant
                i <= self.0@.len(),
                forall|j: int| 0 <= j < i ==> script_filename(#[trigger] self.0@[j]) != filename@,
            decreases self.0@.len() - i,
        {
            let name = self.0[i].get_filename();
            if str_eq(name.as_str(), filename.as_str()) {
                assert(script_filename(self@[i as int]) == filename@);
                return true;
            }
            i = i + 1;
        }
        false
    }

    /// An iterator over the scripts, in order.
    pub fn iter(&self) -> (r: std::slice::Iter<'_, Script>)
        ensures
            IteratorSpec::remaining(&r) == self@.as_ref(),
    {
        self.0.iter()
    }

    /// The script at `index`, where there is one.
    pub fn get(&self, index: usize) -> (r: Option<&Script>)
        ensures
            index < self@.len() ==> r == Some(&self@[index as int]),
            index >= self@.len() ==> r is None,
    {
        if index < self.0.len() {
            Some(&self.0[index])
        } else {
            None
        }
    }

    /// The script at `index`, to change, where there is one.
    pub fn get_mut(&mut self, index: usize) -> (r: Option<&mut Script>)
        ensures
            index < old(self)@.len() ==> r is Some && *r->0 == old(self)@[index as int]
                && final(self)@ == old(self)@.update(index as int, *final(r->0)),
            index >= old(self)@.len() ==> r is None && final(self)@ == old(self)@,
    {
        if index < self.0.len() {
            Some(&mut self.0[index])
        } else {
            None
        }
    }

    /// Adds a script at the end.
    pub fn push(&mut self, script: Script)
        ensures
            final(self)@ == old(self)@.push(script),
    {
        self.0.push(script)
    }

    /// Removes the script at `index`; nothing happens where there is none.
    pub fn remove(&mut self, index: usize)
        ensures
            final(self)@ == removed(old(self)@, index as int),
    {
        remove_in(&mut self.0, index)
    }

    /// Moves the script at `index` one place up; nothing happens where it cannot move.
    pub fn move_up(&mut self, index: usize)
        ensures
            final(self)@ == moved_up(old(self)@, index as int),
    {
        move_up_in(&mut self.0, index)
    }

    /// Moves the script at `index` one place down; nothing happens where it cannot move.
    pub fn move_down(&mut self, index: usize)
        ensures
            final(self)@ == moved_down(old(self)@, index as int),
    {
        move_down_in(&mut self.0, index)
    }
}

} // verus!
