//! Catalogue files that agents carry: a CATALOGUE file as it is, or entries written out
//! in the source.
use vstd::prelude::*;
use crate::error::Error;
use crate::file_helper::{filename, title, or_empty, path_extension, path_file_name, path_file_stem};
use crate::text::{str_eq, to_owned, push_str, escape_quotes, escape_quotes_string};
use crate::buffer::put_slice;
use crate::reorder::{moved_up, moved_down, move_up_in, move_down_in};
use super::file::FileType;

verus! {

/// A catalogue: a file taken as it is, or entries written out in the source.
pub enum Catalogue {
    Raw { filetype: FileType, output_filename: String, input_filename: String, data: Option<Vec<u8>> },
    Inline { filetype: FileType, output_filename: String, entries: Vec<CatalogueEntry>, data: Option<Vec<u8>> },
}

/// A catalogue entry: the help text of an agent, by its classifier.
pub struct CatalogueEntry {
    pub name: String,
    pub classifier: String,
    pub description: String,
}

/// The entries of a catalogue written out in the source.
pub open spec fn catalogue_entries(c: Catalogue) -> Option<Seq<CatalogueEntry>> {
    match c {
        Catalogue::Inline { entries, .. } => Some(entries@),
        Catalogue::Raw { .. } => None,
    }
}

/// Whether two catalogues agree but for their entries.
pub open spec fn same_but_entries(a: Catalogue, b: Catalogue) -> bool {
    match (a, b) {
        (
            Catalogue::Inline { filetype: f1, output_filename: o1, data: d1, .. },
            Catalogue::Inline { filetype: f2, output_filename: o2, data: d2, .. },
        ) => f1 == f2 && o1 == o2 && d1 == d2,
        (Catalogue::Raw { .. }, Catalogue::Raw { .. }) => a == b,
        _ => false,
    }
}

/// The text of a catalogue file for entries: for each, a `TAG "Agent Help` line with its
/// classifier, its name and its description (quotes escaped) in quotes, and an empty line.
pub open spec fn catalogue_text(entries: Seq<CatalogueEntry>) -> Seq<char>
    decreases entries.len(),
{
    if entries.len() == 0 {
        Seq::empty()
    } else {
        let e = entries.last();
        catalogue_text(entries.drop_last()) + "TAG \"Agent Help "@ + e.classifier@ + "\"\n\""@ + e.name@ + "\"\n\""@
            + escape_quotes(e.description@) + "\"\n\n"@
    }
}

impl Catalogue {
    /// A catalogue for `input_filename`: the file as it is where its extension is
    /// `catalogue`, else an empty catalogue written under its stem.
    pub fn new(input_filename: &String) -> (r: Result<Catalogue, Error>)
        ensures
            if or_empty(path_extension(input_filename@)) == "catalogue"@ {
                r matches Ok(Catalogue::Raw { filetype, output_filename, input_filename: i, data: None })
                    && filetype == FileType::Catalogue && output_filename@ == or_empty(path_file_name(input_filename@))
                    && i@ == input_filename@
            } else {
                r matches Ok(Catalogue::Inline { filetype, output_filename, entries, data: None })
                    && filetype == FileType::Catalogue
                    && output_filename@ == or_empty(path_file_stem(input_filename@)) + ".catalogue"@
                    && entries@.len() == 0
            },
    {
        if str_eq(crate::file_helper::extension(input_filename.as_str()).as_str(), "catalogue") {
            Ok(Catalogue::Raw {
                filetype: FileType::Catalogue,
                output_filename: filename(input_filename.as_str()),
                input_filename: to_owned(input_filename.as_str()),
                data: None,
            })
        } else {
            let mut output_filename = title(input_filename.as_str());
            push_str(&mut output_filename, ".catalogue");
            Ok(Catalogue::Inline { filetype: FileType::Catalogue, output_filename, entries: Vec::new(), data: None })
        }
    }

    /// The catalogue file `input_filename` with the given data; an error unless its
    /// extension is `catalogue`.
    pub fn new_from_data(input_filename: &String, data: &[u8]) -> (r: Result<Catalogue, Error>)
        ensures
            if or_empty(path_extension(input_filename@)) == "catalogue"@ {
                r matches Ok(Catalogue::Raw { filetype, output_filename, input_filename: i, data: Some(d) })
                    && filetype == FileType::Catalogue && output_filename@ == or_empty(path_file_name(input_filename@))
                    && i@ == input_filename@ && d@ == data@
            } else {
                r matches Err(Error::Other(m)) && m@ == "Unrecognized file type. Catalogue must be a CATALOGUE file."@
            },
    {
        if str_eq(crate::file_helper::extension(input_filename.as_str()).as_str(), "catalogue") {
            let mut d: Vec<u8> = Vec::new();
            put_slice(&mut d, data);
            Ok(Catalogue::Raw {
                filetype: FileType::Catalogue,
                output_filename: filename(input_filename.as_str()),
                input_filename: to_owned(input_filename.as_str()),
                data: Some(d),
            })
        } else {
            Err(Error::Other(to_owned("Unrecognized file type. Catalogue must be a CATALOGUE file.")))
        }
    }

    /// Adds an entry to a catalogue written out in the source.
    pub fn add_entry(&mut self, new_entry: CatalogueEntry)
        ensures
            match *old(self) {
                Catalogue::Inline { entries, .. } => same_but_entries(*old(self), *final(self))
                    && catalogue_entries(*final(self)) == Some(entries@.push(new_entry)),
                Catalogue::Raw { .. } => *final(self) == *old(self),
            },
    {
        if let Catalogue::Inline { entries, .. } = self {
            entries.push(new_entry);
        }
    }

    /// Removes the entry at `index`; gives whether there was one.
    pub fn remove_entry(&mut self, index: usize) -> (r: bool)
        ensures
            match *old(self) {
                Catalogue::Inline { entries, .. } => {
                    &&& r == (index < entries@.len())
                    &&& same_but_entries(*old(self), *final(self))
                    &&& catalogue_entries(*final(self)) == Some(if r { entries@.remove(index as int) } else { entries@ })
                },
                Catalogue::Raw { .. } => !r && *final(self) == *old(self),
            },
    {
        if let Catalogue::Inline { entries, .. } = self {
            if index < entries.len() {
                entries.remove(index);
                return true;
            }
        }
        false
    }

    /// Moves the entry at `index` one place up; gives whether it moved.
    pub fn move_entry_up(&mut self, index: usize) -> (r: bool)
        ensures
            match *old(self) {
                Catalogue::Inline { entries, .. } => {
                    &&& r == (0 < index < entries@.len())
                    &&& same_but_entries(*old(self), *final(self))
                    &&& catalogue_entries(*final(self)) == Some(moved_up(entries@, index as int))
                },
                Catalogue::Raw { .. } => !r && *final(self) == *old(self),
            },
    {
        if let Catalogue::Inline { entries, .. } = self {
            if index > 0 && index < entries.len() {
                move_up_in(entries, index);
                return true;
            }
        }
        false
    }

    /// Moves the entry at `index` one place down; gives whether it moved.
    pub fn move_entry_down(&mut self, index: usize) -> (r: bool)
        ensures
            match *old(self) {
                Catalogue::Inline { entries, .. } => {
                    &&& r == (index + 1 < entries@.len())
                    &&& same_but_entries(*old(self), *final(self))
                    &&& catalogue_entries(*final(self)) == Some(moved_down(entries@, index as int))
                },
                Catalogue::Raw { .. } => !r && *final(self) == *old(self),
            },
    {
        if let Catalogue::Inline { entries, .. } = self {
            if index < entries.len() && index + 1 < entries.len() {
                move_down_in(entries, index);
                return true;
            }
        }
        false
    }

    /// The name the catalogue is written under.
    pub fn get_output_filename(&self) -> (r: String)
        ensures
            r@ == match *self {
                Catalogue::Raw { output_filename, .. } => output_filename@,
                Catalogue::Inline { output_filename, .. } => output_filename@,
            },
    {
        match self {
            Catalogue::Raw { output_filename, .. } => to_owned(output_filename.as_str()),
            Catalogue::Inline { output_filename, .. } => to_owned(output_filename.as_str()),
        }
    }
}

/// The text of a catalogue file for entries.
pub fn inline_contents(entries: &Vec<CatalogueEntry>) -> (r: String)
    ensures
        r@ == catalogue_text(entries@),
{
    let mut contents = String::new();
    let mut i: usize = 0;
    while i < entries.len()
        invariant
            i <= entries@.len(),
            contents@ == catalogue_text(entries@.take(i as int)),
        decreases entries@.len() - i,
    {
        let e = &entries[i];
        push_str(&mut contents, "TAG \"Agent Help ");
        push_str(&mut contents, e.classifier.as_str());
        push_str(&mut contents, "\"\n\"");
        push_str(&mut contents, e.name.as_str());
        push_str(&mut contents, "\"\n\"");
        push_str(&mut contents, escape_quotes_string(e.description.as_str()).as_str());
        push_str(&mut contents, "\"\n\n");
        assert(entries@.take(i + 1).drop_last() =~= entries@.take(i as int));
        assert(entries@.take(i + 1).last() == entries@[i as int]);
        i = i + 1;
    }
    assert(entries@.take(i as int) =~= entries@);
    contents
}

} // verus!
