//! Sound files (WAV) that agents carry.
use vstd::prelude::*;
use crate::error::Error;
use crate::file_helper::{filename, title, or_empty, path_extension, path_file_name, path_file_stem};
use crate::text::{str_eq, to_owned};
use crate::buffer::put_slice;
use super::file::copy_data;

verus! {

/// A sound: the name it is written under, the file it is read from, and its data once
/// read.
pub struct Sound {
    pub output_filename: String,
    pub input_filename: String,
    pub data: Option<Vec<u8>>,
}

impl Sound {
    /// The sound in the file `input_filename` with the given data; an error unless its
    /// extension is `wav`.
    pub fn new_from_data(input_filename: &String, data: &[u8]) -> (r: Result<Sound, Error>)
        ensures
            if or_empty(path_extension(input_filename@)) == "wav"@ {
                r matches Ok(s) && s.output_filename@ == or_empty(path_file_name(input_filename@))
                    && s.input_filename@ == input_filename@ && (match s.data { Some(d) => d@ == data@, None => false })
            } else {
                r matches Err(Error::Other(m)) && m@ == "Unrecognized file type. Sound must be a WAV file."@
            },
    {
        if str_eq(crate::file_helper::extension(input_filename.as_str()).as_str(), "wav") {
            let mut d: Vec<u8> = Vec::new();
            put_slice(&mut d, data);
            Ok(Sound { output_filename: filename(input_filename.as_str()), input_filename: to_owned(input_filename.as_str()), data: Some(d) })
        } else {
            Err(Error::Other(to_owned("Unrecognized file type. Sound must be a WAV file.")))
        }
    }

    /// The name the sound is written under.
    pub fn get_output_filename(&self) -> (r: String)
        ensures
            r@ == self.output_filename@,
    {
        to_owned(self.output_filename.as_str())
    }

    /// The stem of the name the sound is written under.
    pub fn get_title(&self) -> (r: String)
        ensures
            r@ == or_empty(path_file_stem(self.output_filename@)),
    {
        title(self.output_filename.as_str())
    }

    /// The extension of a sound: `wav`.
    pub fn get_extension(&self) -> (r: String)
        ensures
            r@ == "wav"@,
    {
        to_owned("wav")
    }

    /// A copy of the sound's data, once read.
    pub fn get_data(&self) -> (r: Option<Vec<u8>>)
        ensures
            match (r, self.data) {
                (Some(a), Some(b)) => a@ == b@,
                (None, None) => true,
                _ => false,
            },
    {
        copy_data(&self.data)
    }
}

} // verus!
