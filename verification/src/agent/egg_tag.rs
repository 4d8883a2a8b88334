//! Egg tags: an egg with the sprites, body data and genetics it carries, each listed
//! by its index among the source's files.
use vstd::prelude::*;
use crate::text::to_owned;
use super::file::{list_contains, CreaturesFile, first_non_background, first_non_background_in};

verus! {

/// An egg tag.
pub struct EggTag {
    pub name: String,
    pub version: String,
    pub preview: EggPreview,
    pub genome: Option<usize>,
    pub preview_backup: EggPreview,
    pub sprites: Vec<usize>,
    pub bodydata: Vec<usize>,
    pub genetics: Vec<usize>,
    pub use_all_files: bool,
}

/// How an egg's preview is made.
pub enum EggPreview {
    Unset,
    Manual { sprite_male: usize, sprite_female: usize, animation: String },
}

impl EggTag {
    /// A new egg named "Untitled Egg", listing no files.
    pub fn new() -> (r: EggTag)
        ensures
            r.name@ == "Untitled Egg"@,
            r.version@ == Seq::<char>::empty(),
            r.preview is Unset,
            r.genome is None,
            r.preview_backup is Unset,
            r.sprites@ == Seq::<usize>::empty(),
            r.bodydata@ == Seq::<usize>::empty(),
            r.genetics@ == Seq::<usize>::empty(),
            !r.use_all_files,
    {
        EggTag {
            name: to_owned("Untitled Egg"),
            version: String::new(),
            preview: EggPreview::Unset,
            genome: None,
            preview_backup: EggPreview::Unset,
            sprites: Vec::new(),
            bodydata: Vec::new(),
            genetics: Vec::new(),
            use_all_files: false,
        }
    }

    /// Whether the egg lists the file at `file_index` among its sprites.
    pub fn has_sprite(&self, file_index: usize) -> (r: bool)
        ensures
            r == self.sprites@.contains(file_index),
    {
        list_contains(&self.sprites, file_index)
    }

    /// The first listed sprite that is not a background, where there is one.
    pub fn get_first_sprite(&self, files: &[CreaturesFile]) -> (r: Option<usize>)
        ensures
            r == first_non_background(self.sprites@, files@),
    {
        first_non_background_in(&self.sprites, files)
    }
}

} // verus!
