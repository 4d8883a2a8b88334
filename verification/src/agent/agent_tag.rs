//! Agent tags: an agent with the scripts, sprites, sounds and catalogues it carries,
//! each listed by its index among the source's files.
use vstd::prelude::*;
use crate::text::to_owned;
use super::file::{list_contains, CreaturesFile, first_non_background, first_non_background_in};

verus! {

/// An agent tag.
pub struct AgentTag {
    pub name: String,
    pub version: String,
    pub description: String,
    pub supported_game: SupportedGame,
    pub remove_script: RemoveScript,
    pub preview: Preview,
    pub remove_script_backup: RemoveScript,
    pub preview_backup: Preview,
    pub scripts: Vec<usize>,
    pub sprites: Vec<usize>,
    pub sounds: Vec<usize>,
    pub catalogues: Vec<usize>,
    pub use_all_files: bool,
}

/// The games an agent is made for.
#[derive(Clone, Copy, PartialEq, Eq, Structural, Debug)]
pub enum SupportedGame {
    C3,
    DS,
    C3DS,
}

/// How an agent's remove script is made.
pub enum RemoveScript {
    Unset,
    Auto,
    Manual(String),
}

/// How an agent's preview is made.
pub enum Preview {
    Unset,
    Auto,
    Manual { sprite: usize, animation: String },
}

impl AgentTag {
    /// A new agent named "Untitled Agent", for both games, listing no files.
    pub fn new() -> (r: AgentTag)
        ensures
            r.name@ == "Untitled Agent"@,
            r.version@ == Seq::<char>::empty(),
            r.description@ == Seq::<char>::empty(),
            r.supported_game == SupportedGame::C3DS,
            r.remove_script is Unset,
            r.preview is Unset,
            r.remove_script_backup is Unset,
            r.preview_backup is Unset,
            r.scripts@ == Seq::<usize>::empty(),
            r.sprites@ == Seq::<usize>::empty(),
            r.sounds@ == Seq::<usize>::empty(),
            r.catalogues@ == Seq::<usize>::empty(),
            !r.use_all_files,
    {
        AgentTag {
            name: to_owned("Untitled Agent"),
            version: String::new(),
            description: String::new(),
            supported_game: SupportedGame::C3DS,
            remove_script: RemoveScript::Unset,
            preview: Preview::Unset,
            remove_script_backup: RemoveScript::Unset,
            preview_backup: Preview::Unset,
            scripts: Vec::new(),
            sprites: Vec::new(),
            sounds: Vec::new(),
            catalogues: Vec::new(),
            use_all_files: false,
        }
    }

    /// Whether the agent lists the file at `file_index` among its sprites.
    pub fn has_sprite(&self, file_index: usize) -> (r: bool)
        ensures
            r == self.sprites@.contains(file_index),
    {
        list_contains(&self.sprites, file_index)
    }

    /// The first listed sprite that is not a background, where there is one.
    pub fn get_first_sprite(&self, files: &[CreaturesFile]) -> (r: Option<usize>)
        ensures
            r == first_non_background(self.sprites@, files@),
    {
        first_non_background_in(&self.sprites, files)
    }
}

} // verus!
