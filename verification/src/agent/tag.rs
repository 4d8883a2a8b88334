//! Tags of a Theist source: agents, eggs and free blocks, and the files each lists.
use vstd::prelude::*;
use crate::text::to_owned;
use crate::reorder::{moved_up, moved_down, move_up_in, move_down_in};
use super::agent_tag::AgentTag;
use super::egg_tag::EggTag;
use super::free_tag::FreeTag;
use super::file::{FileType, CreaturesFile, filetype_of, list_contains};
use crate::source::agent_tag::agent_source;
use crate::source::egg_tag::egg_source;
use crate::source::free_tag::free_tag_source;
use crate::pray::compile::{block_of, is_compile_error};

verus! {

/// A tag.
pub enum Tag {
    Agent(AgentTag),
    Egg(EggTag),
    Free(FreeTag),
}

/// The list of files of the given kind that a tag keeps: an agent keeps scripts,
/// sprites, sounds and catalogues, an egg sprites, body data and genetics; a free tag
/// keeps none.
pub open spec fn file_list(t: Tag, filetype: FileType) -> Option<Seq<usize>> {
    match t {
        Tag::Agent(a) => match filetype {
            FileType::Script => Some(a.scripts@),
            FileType::Sprite => Some(a.sprites@),
            FileType::Sound => Some(a.sounds@),
            FileType::Catalogue => Some(a.catalogues@),
            _ => None,
        },
        Tag::Egg(e) => match filetype {
            FileType::Sprite => Some(e.sprites@),
            FileType::BodyData => Some(e.bodydata@),
            FileType::Genetics => Some(e.genetics@),
            _ => None,
        },
        Tag::Free(_) => None,
    }
}

/// Whether two agent tags agree but for the list of files of the given kind.
pub open spec fn agent_same_except(a: AgentTag, b: AgentTag, filetype: FileType) -> bool {
    &&& a.name == b.name
    &&& a.version == b.version
    &&& a.description == b.description
    &&& a.supported_game == b.supported_game
    &&& a.remove_script == b.remove_script
    &&& a.preview == b.preview
    &&& a.remove_script_backup == b.remove_script_backup
    &&& a.preview_backup == b.preview_backup
    &&& a.use_all_files == b.use_all_files
    &&& (filetype != FileType::Script ==> a.scripts@ == b.scripts@)
    &&& (filetype != FileType::Sprite ==> a.sprites@ == b.sprites@)
    &&& (filetype != FileType::Sound ==> a.sounds@ == b.sounds@)
    &&& (filetype != FileType::Catalogue ==> a.catalogues@ == b.catalogues@)
}

/// Whether two egg tags agree but for the list of files of the given kind.
pub open spec fn egg_same_except(a: EggTag, b: EggTag, filetype: FileType) -> bool {
    &&& a.name == b.name
    &&& a.version == b.version
    &&& a.preview == b.preview
    &&& a.genome == b.genome
    &&& a.preview_backup == b.preview_backup
    &&& a.use_all_files == b.use_all_files
    &&& (filetype != FileType::Sprite ==> a.sprites@ == b.sprites@)
    &&& (filetype != FileType::BodyData ==> a.bodydata@ == b.bodydata@)
    &&& (filetype != FileType::Genetics ==> a.genetics@ == b.genetics@)
}

/// Whether two tags are of the same kind and agree but for the list of files of the
/// given kind.
pub open spec fn same_except_list(a: Tag, b: Tag, filetype: FileType) -> bool {
    match (a, b) {
        (Tag::Agent(x), Tag::Agent(y)) => agent_same_except(x, y, filetype),
        (Tag::Egg(x), Tag::Egg(y)) => egg_same_except(x, y, filetype),
        (Tag::Free(x), Tag::Free(y)) => x == y,
        _ => false,
    }
}

/// Whether two tags are of the same kind and agree but for their lists of files.
pub open spec fn same_but_lists(a: Tag, b: Tag) -> bool {
    match (a, b) {
        (Tag::Agent(x), Tag::Agent(y)) => {
            &&& x.name == y.name
            &&& x.version == y.version
            &&& x.description == y.description
            &&& x.supported_game == y.supported_game
            &&& x.remove_script == y.remove_script
            &&& x.preview == y.preview
            &&& x.remove_script_backup == y.remove_script_backup
            &&& x.preview_backup == y.preview_backup
            &&& x.use_all_files == y.use_all_files
        },
        (Tag::Egg(x), Tag::Egg(y)) => {
            &&& x.name == y.name
            &&& x.version == y.version
            &&& x.preview == y.preview
            &&& x.genome == y.genome
            &&& x.preview_backup == y.preview_backup
            &&& x.use_all_files == y.use_all_files
        },
        (Tag::Free(x), Tag::Free(y)) => x == y,
        _ => false,
    }
}

/// The list of files of the given kind after `f`, where the tag keeps one.
pub open spec fn mapped_list(l: Option<Seq<usize>>, f: spec_fn(Seq<usize>) -> Seq<usize>) -> Option<Seq<usize>> {
    match l {
        Some(s) => Some(f(s)),
        None => None,
    }
}

/// The name of a tag.
pub open spec fn tag_name(t: Tag) -> String {
    match t {
        Tag::Agent(a) => a.name,
        Tag::Egg(e) => e.name,
        Tag::Free(f) => f.name,
    }
}

/// The source text of a tag.
pub open spec fn tag_source(t: Tag, files: Seq<CreaturesFile>) -> Seq<char> {
    match t {
        Tag::Agent(a) => agent_source(a, files),
        Tag::Egg(e) => egg_source(e, files),
        Tag::Free(f) => free_tag_source(f.name@, f.block_type@, f.version@, f.contents@),
    }
}

impl Tag {
    /// Writes the tag's PRAY block; the error of the first script that cannot be
    /// written, for an agent.
    pub fn write_block(&self, files: &[CreaturesFile]) -> (r: Result<Vec<u8>, crate::error::Error>)
        ensures
            match block_of(*self, files@) {
                Ok(b) => r matches Ok(x) && x@ == b,
                Err(f) => r matches Err(e) && is_compile_error(e, f),
            },
    {
        match self {
            Tag::Agent(tag) => crate::pray::agent_block::write_agent_block(tag, files),
            Tag::Egg(tag) => crate::pray::egg_block::write_egg_block(tag, files),
            Tag::Free(tag) => crate::pray::free_block::write_free_block(tag, files),
        }
    }

    /// Writes the tag as source text.
    pub fn encode(&self, files: &[CreaturesFile]) -> (r: String)
        ensures
            r@ == tag_source(*self, files@),
    {
        match self {
            Tag::Agent(tag) => crate::source::agent_tag::encode(tag, files),
            Tag::Egg(tag) => crate::source::egg_tag::encode(tag, files),
            Tag::Free(tag) => crate::source::free_tag::encode(tag),
        }
    }

    /// The tag's type: "agent", "egg", or a free tag's block type.
    pub fn get_type(&self) -> (r: String)
        ensures
            r@ == match *self {
                Tag::Agent(_) => "agent"@,
                Tag::Egg(_) => "egg"@,
                Tag::Free(f) => f.block_type@,
            },
    {
        match self {
            Tag::Agent(_tag) => to_owned("agent"),
            Tag::Egg(_tag) => to_owned("egg"),
            Tag::Free(tag) => to_owned(tag.block_type.as_str()),
        }
    }

    /// The tag's name.
    pub fn get_name(&self) -> (r: &String)
        ensures
            *r == tag_name(*self),
    {
        match self {
            Tag::Agent(tag) => &tag.name,
            Tag::Egg(tag) => &tag.name,
            Tag::Free(tag) => &tag.name,
        }
    }

    /// Whether the tag takes every file of the source (agents and eggs only).
    pub fn does_use_all_files(&self) -> (r: bool)
        ensures
            r == match *self {
                Tag::Agent(a) => a.use_all_files,
                Tag::Egg(e) => e.use_all_files,
                Tag::Free(_) => false,
            },
    {
        match self {
            Tag::Agent(tag) => tag.use_all_files,
            Tag::Egg(tag) => tag.use_all_files,
            _ => false,
        }
    }

    /// The list of files of the given kind, where the tag keeps one.
    pub fn get_file_list(&self, filetype: &FileType) -> (r: Option<&Vec<usize>>)
        ensures
            match r {
                Some(l) => file_list(*self, *filetype) == Some(l@),
                None => file_list(*self, *filetype) is None,
            },
    {
        match self {
            Tag::Agent(tag) => match filetype {
                FileType::Script => Some(&tag.scripts),
                FileType::Sprite => Some(&tag.sprites),
                FileType::Sound => Some(&tag.sounds),
                FileType::Catalogue => Some(&tag.catalogues),
                _ => None,
            },
            Tag::Egg(tag) => match filetype {
                FileType::Sprite => Some(&tag.sprites),
                FileType::BodyData => Some(&tag.bodydata),
                FileType::Genetics => Some(&tag.genetics),
                _ => None,
            },
            _ => None,
        }
    }

    /// The list of files of the given kind, to change, where the tag keeps one.
    pub fn get_file_list_mut(&mut self, filetype: &FileType) -> (r: Option<&mut Vec<usize>>)
        ensures
            match r {
                Some(l) => file_list(*old(self), *filetype) == Some(l@)
                    && file_list(*final(self), *filetype) == Some(final(l)@)
                    && same_except_list(*old(self), *final(self), *filetype),
                None => file_list(*old(self), *filetype) is None && *final(self) == *old(self),
            },
    {
        match self {
            Tag::Agent(tag) => match filetype {
                FileType::Script => Some(&mut tag.scripts),
                FileType::Sprite => Some(&mut tag.sprites),
                FileType::Sound => Some(&mut tag.sounds),
                FileType::Catalogue => Some(&mut tag.catalogues),
                _ => None,
            },
            Tag::Egg(tag) => match filetype {
                FileType::Sprite => Some(&mut tag.sprites),
                FileType::BodyData => Some(&mut tag.bodydata),
                FileType::Genetics => Some(&mut tag.genetics),
                _ => None,
            },
            _ => None,
        }
    }

    /// Whether the tag lists the file at `file_index` among its files of the given kind.
    pub fn has_file(&self, filetype: &FileType, file_index: usize) -> (r: bool)
        ensures
            r == (file_list(*self, *filetype) matches Some(l) && l.contains(file_index)),
    {
        if let Some(file_list) = self.get_file_list(filetype) {
            list_contains(file_list, file_index)
        } else {
            false
        }
    }

    /// Adds the file at `file_index` to the tag's files of the given kind, giving its
    /// place in that list; `None`, with the tag unchanged, where the tag keeps no such
    /// list.
    pub fn add_file(&mut self, filetype: &FileType, file_index: usize) -> (r: Option<usize>)
        ensures
            match file_list(*old(self), *filetype) {
                Some(l) => r == Some(l.len() as usize)
                    && file_list(*final(self), *filetype) == Some(l.push(file_index))
                    && same_except_list(*old(self), *final(self), *filetype),
                None => r is None && *final(self) == *old(self),
            },
    {
        if let Some(file_list) = self.get_file_list_mut(filetype) {
            file_list.push(file_index);
            return Some(file_list.len() - 1);
        }
        None
    }

    /// Removes the entry at `ref_index` from the tag's files of the given kind; nothing
    /// happens where the tag keeps no such list.
    pub fn remove_file(&mut self, filetype: &FileType, ref_index: usize)
        requires
            file_list(*old(self), *filetype) matches Some(l) ==> ref_index < l.len(),
        ensures
            match file_list(*old(self), *filetype) {
                Some(l) => file_list(*final(self), *filetype) == Some(l.remove(ref_index as int))
                    && same_except_list(*old(self), *final(self), *filetype),
                None => *final(self) == *old(self),
            },
    {
        if let Some(file_list) = self.get_file_list_mut(filetype) {
            file_list.remove(ref_index);
        }
    }

    /// Moves the entry at `ref_index` of the tag's files of the given kind one place up,
    /// giving its new place; where it cannot move, nothing happens and `ref_index` comes
    /// back.
    pub fn move_file_up(&mut self, filetype: &FileType, ref_index: usize) -> (r: usize)
        ensures
            match file_list(*old(self), *filetype) {
                Some(l) => file_list(*final(self), *filetype) == Some(moved_up(l, ref_index as int))
                    && same_except_list(*old(self), *final(self), *filetype)
                    && r == if 0 < ref_index < l.len() { (ref_index - 1) as usize } else { ref_index },
                None => *final(self) == *old(self) && r == ref_index,
            },
    {
        if let Some(file_list) = self.get_file_list_mut(filetype) {
            if ref_index > 0 && ref_index < file_list.len() {
                move_up_in(file_list, ref_index);
                return ref_index - 1;
            }
        }
        ref_index
    }

    /// Moves the entry at `ref_index` of the tag's files of the given kind one place
    /// down, giving its new place; where it cannot move, nothing happens and `ref_index`
    /// comes back.
    pub fn move_file_down(&mut self, filetype: &FileType, ref_index: usize) -> (r: usize)
        ensures
            match file_list(*old(self), *filetype) {
                Some(l) => file_list(*final(self), *filetype) == Some(moved_down(l, ref_index as int))
                    && same_except_list(*old(self), *final(self), *filetype)
                    && r == if ref_index + 1 < l.len() { (ref_index + 1) as usize } else { ref_index },
                None => *final(self) == *old(self) && r == ref_index,
            },
    {
        if let Some(file_list) = self.get_file_list_mut(filetype) {
            if ref_index < file_list.len() && ref_index + 1 < file_list.len() {
                move_down_in(file_list, ref_index);
                return ref_index + 1;
            }
        }
        ref_index
    }

    /// Adds every file to the tag's list of files of its kind, by place, where the tag
    /// keeps such a list.
    pub fn add_files(&mut self, files: &[CreaturesFile])
        ensures
            forall|ft: FileType| #![auto]
                file_list(*final(self), ft) == mapped_list(
                    file_list(*old(self), ft),
                    |l: Seq<usize>| l + files_of_kind(files@, ft, files@.len() as nat),
                ),
            same_but_lists(*old(self), *final(self)),
    {
        let mut i: usize = 0;
        while i < files.len()
            invariant
                i <= files@.len(),
                forall|ft: FileType| #![auto]
                    file_list(*self, ft) == mapped_list(
                        file_list(*old(self), ft),
                        |l: Seq<usize>| l + files_of_kind(files@, ft, i as nat),
                    ),
                same_but_lists(*old(self), *self),
            decreases files@.len() - i,
        {
            let ghost before = *self;
            let ft = files[i].get_filetype();
            self.add_file(&ft, i);
            proof {
                assert forall|g: FileType| #![auto]
                    file_list(*self, g) == mapped_list(
                        file_list(*old(self), g),
                        |l: Seq<usize>| l + files_of_kind(files@, g, (i + 1) as nat),
                    ) by {
                    match file_list(*old(self), g) {
                        Some(l0) => {
                            if g == ft {
                                assert(l0 + files_of_kind(files@, g, (i + 1) as nat) =~= (l0 + files_of_kind(files@, g, i as nat)).push(i));
                            } else {
                                assert(file_list(*self, g) == file_list(before, g));
                                assert(files_of_kind(files@, g, (i + 1) as nat) == files_of_kind(files@, g, i as nat));
                            }
                        },
                        None => {},
                    }
                }
            }
            i = i + 1;
        }
    }
}

/// The places among the first `k` files of those of the kind `ft`, in order.
pub open spec fn files_of_kind(files: Seq<CreaturesFile>, ft: FileType, k: nat) -> Seq<usize>
    decreases k,
{
    if k == 0 {
        Seq::empty()
    } else {
        files_of_kind(files, ft, (k - 1) as nat) + if filetype_of(files[k - 1]) == ft {
            seq![(k - 1) as usize]
        } else {
            Seq::empty()
        }
    }
}

} // verus!
