//! Genetics files (GEN genomes, GNO notes) that eggs carry.
use vstd::prelude::*;
use crate::error::Error;
use crate::file_helper::{filename, title, or_empty, path_extension, path_file_name, path_file_stem};
use crate::text::{str_eq, to_owned};
use crate::buffer::put_slice;
use super::file::FileType;

verus! {

/// A genetics file: the name it is written under, the file it is read from, and its data
/// once read.
pub struct Genetics {
    pub filetype: FileType,
    pub output_filename: String,
    pub input_filename: String,
    pub data: Option<Vec<u8>>,
}

impl Genetics {
    /// The genetics file `input_filename` with the given data; an error unless its
    /// extension is `gen` or `gno`.
    pub fn new_from_data(input_filename: &String, data: &[u8]) -> (r: Result<Genetics, Error>)
        ensures
            ({
                let e = or_empty(path_extension(input_filename@));
                if e == "gen"@ || e == "gno"@ {
                    r matches Ok(g) && g.filetype == FileType::Genetics
                        && g.output_filename@ == or_empty(path_file_name(input_filename@))
                        && g.input_filename@ == input_filename@ && (match g.data { Some(d) => d@ == data@, None => false })
                } else {
                    r matches Err(Error::Other(m)) && m@ == "Unrecognized file type. Genetics file must be a GEN or GNO."@
                }
            }),
    {
        let e = crate::file_helper::extension(input_filename.as_str());
        if str_eq(e.as_str(), "gen") || str_eq(e.as_str(), "gno") {
            let mut d: Vec<u8> = Vec::new();
            put_slice(&mut d, data);
            Ok(Genetics {
                filetype: FileType::Genetics,
                output_filename: filename(input_filename.as_str()),
                input_filename: to_owned(input_filename.as_str()),
                data: Some(d),
            })
        } else {
            Err(Error::Other(to_owned("Unrecognized file type. Genetics file must be a GEN or GNO.")))
        }
    }

    /// The name the genetics file is written under.
    pub fn get_output_filename(&self) -> (r: String)
        ensures
            r@ == self.output_filename@,
    {
        to_owned(self.output_filename.as_str())
    }

    /// The stem of the name the genetics file is written under.
    pub fn get_title(&self) -> (r: String)
        ensures
            r@ == or_empty(path_file_stem(self.output_filename@)),
    {
        title(self.output_filename.as_str())
    }
}

} // verus!
