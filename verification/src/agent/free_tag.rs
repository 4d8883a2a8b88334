//! Free tags: a block of any type, with its contents written out as text.
use vstd::prelude::*;
use crate::text::to_owned;

verus! {

/// A free tag.
pub struct FreeTag {
    pub name: String,
    pub version: String,
    pub block_type: String,
    pub contents: String,
}

impl FreeTag {
    /// A new tag named "Untitled Tag", with no type and no contents.
    pub fn new() -> (r: FreeTag)
        ensures
            r.name@ == "Untitled Tag"@,
            r.version@ == Seq::<char>::empty(),
            r.block_type@ == Seq::<char>::empty(),
            r.contents@ == Seq::<char>::empty(),
    {
        FreeTag {
            name: to_owned("Untitled Tag"),
            version: String::new(),
            block_type: String::new(),
            contents: String::new(),
        }
    }
}

} // verus!
