//! Body data files listed by file name.
use vstd::prelude::*;
use vstd::std_specs::iter::IteratorSpec;
use crate::reorder::{moved_up, moved_down, removed, move_up_in, move_down_in, remove_in};
use crate::text::str_eq;
use super::Filename;
use super::background::parsed_filename;

verus! {

/// A body data file, named by its file.
pub struct BodyData {
    pub filename: Filename,
}

impl BodyData {
    /// The body data file `filename`.
    pub fn new(filename: &str) -> (r: BodyData)
        ensures
            r.filename@ == parsed_filename(filename@),
    {
        BodyData { filename: Filename::new(filename) }
    }

    /// Its file name.
    pub fn get_filename(&self) -> (r: String)
        ensures
            r@ == self.filename@.string,
    {
        self.filename.to_string()
    }
}

/// A list of body data files.
pub struct BodyDataList(Vec<BodyData>);

impl View for BodyDataList {
    type V = Seq<BodyData>;

    closed spec fn view(&self) -> Seq<BodyData> {
        self.0@
    }
}

impl BodyDataList {
    /// An empty list.
    pub fn new() -> (r: BodyDataList)
        ensures
            r@ == Seq::<BodyData>::empty(),
    {
        BodyDataList(Vec::new())
    }

    /// Whether the list is empty.
    pub fn is_empty(&self) -> (r: bool)
        ensures
            r == (self@.len() == 0),
    {
        self.0.len() == 0
    }

    /// The number of body data files.
    pub fn len(&self) -> (r: usize)
        ensures
            r == self@.len(),
    {
        self.0.len()
    }

    /// Whether a body data file of the list is the file `filename`.
    pub fn includes(&self, filename: &String) -> (r: bool)
        ensures
            r == exists|i: int| 0 <= i < self@.len() && (#[trigger] self@[i]).filename@.string == filename@,
    {
        let mut i: usize = 0;
        while i < self.0.len()
            invariant
                i <= self.0@.len(),
                forall|j: int| 0 <= j < i ==> (#[trigger] self.0@[j]).filename@.string != filename@,
            decreases self.0@.len() - i,
        {
            let name = self.0[i].get_filename();
            if str_eq(name.as_str(), filename.as_str()) {
                assert(self@[i as int].filename@.string == filename@);
                return true;
            }
            i = i + 1;
        }
        false
    }

    /// An iterator over the body data files, in order.
    pub fn iter(&self) -> (r: std::slice::Iter<'_, BodyData>)
        ensures
            IteratorSpec::remaining(&r) == self@.as_ref(),
    {
        self.0.iter()
    }

    /// The body data file at `index`, where there is one.
    pub fn get(&self, index: usize) -> (r: Option<&BodyData>)
        ensures
            index < self@.len() ==> r == Some(&self@[index as int]),
            index >= self@.len() ==> r is None,
    {
        if index < self.0.len() {
            Some(&self.0[index])
        } else {
            None
        }
    }

    /// Adds a body data file at the end.
    pub fn push(&mut self, body_data: BodyData)
        ensures
            final(self)@ == old(self)@.push(body_data),
    {
        self.0.push(body_data)
    }

    /// Removes the body data file at `index`; nothing happens where there is none.
    pub fn remove(&mut self, index: usize)
        ensures
            final(self)@ == removed(old(self)@, index as int),
    {
        remove_in(&mut self.0, index)
    }

    /// Moves the body data file at `index` one place up; nothing happens where it cannot
    /// move.
    pub fn move_up(&mut self, index: usize)
        ensures
            final(self)@ == moved_up(old(self)@, index as int),
    {
        move_up_in(&mut self.0, index)
    }

    /// Moves the body data file at `index` one place down; nothing happens where it
    /// cannot move.
    pub fn move_down(&mut self, index: usize)
        ensures
            final(self)@ == moved_down(old(self)@, index as int),
    {
        move_down_in(&mut self.0, index)
    }
}

} // verus!
