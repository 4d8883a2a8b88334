//! Body data files (ATT) that eggs carry.
use vstd::prelude::*;
use crate::error::Error;
use crate::file_helper::{filename, or_empty, path_extension, path_file_name};
use crate::text::{str_eq, to_owned};
use crate::buffer::put_slice;
use super::file::FileType;

verus! {

/// Body data: the name it is written under, the file it is read from, and its data
/// once read.
pub struct BodyData {
    pub filetype: FileType,
    pub output_filename: String,
    pub input_filename: String,
    pub data: Option<Vec<u8>>,
}

impl BodyData {
    /// The body data in the file `input_filename` with the given data; an error unless
    /// its extension is `att`.
    pub fn new_from_data(input_filename: &String, data: &[u8]) -> (r: Result<BodyData, Error>)
        ensures
            if or_empty(path_extension(input_filename@)) == "att"@ {
                r matches Ok(b) && b.filetype == FileType::BodyData
                    && b.output_filename@ == or_empty(path_file_name(input_filename@))
                    && b.input_filename@ == input_filename@ && (match b.data { Some(d) => d@ == data@, None => false })
            } else {
                r matches Err(Error::Other(m)) && m@ == "Unrecognized file type. Body data must be a ATT file."@
            },
    {
        if str_eq(crate::file_helper::extension(input_filename.as_str()).as_str(), "att") {
            let mut d: Vec<u8> = Vec::new();
            put_slice(&mut d, data);
            Ok(BodyData {
                filetype: FileType::BodyData,
                output_filename: filename(input_filename.as_str()),
                input_filename: to_owned(input_filename.as_str()),
                data: Some(d),
            })
        } else {
            Err(Error::Other(to_owned("Unrecognized file type. Body data must be a ATT file.")))
        }
    }

    /// The name the body data is written under.
    pub fn get_output_filename(&self) -> (r: String)
        ensures
            r@ == self.output_filename@,
    {
        to_owned(self.output_filename.as_str())
    }
}

} // verus!
