//! Blocks of any other type, kept as they were read.
use vstd::prelude::*;
use crate::error::Error;
use crate::text::to_owned;
use crate::buffer::put_slice;
use super::pray::{BlockHeader, BlockHeaderView, block_header_bytes, write_block_header};

verus! {

/// A block of a type this library does not interpret: its id, name and contents.
pub struct GenericBlock {
    pub id: String,
    pub name: String,
    pub data: Vec<u8>,
}

/// A generic block's value.
pub struct GenericBlockView {
    pub id: Seq<char>,
    pub name: Seq<char>,
    pub data: Seq<u8>,
}

impl View for GenericBlock {
    type V = GenericBlockView;

    open spec fn view(&self) -> GenericBlockView {
        GenericBlockView { id: self.id@, name: self.name@, data: self.data@ }
    }
}

/// The bytes of a generic block: a header whose sizes are both the data's length and
/// whose compression flag is set, then the data as it is.
pub open spec fn generic_block_bytes(g: GenericBlockView) -> Seq<u8> {
    block_header_bytes(
        BlockHeaderView {
            id: g.id,
            name: g.name,
            size_compressed: g.data.len() as usize,
            size_uncompressed: g.data.len() as usize,
            is_compressed: true,
        },
    ) + g.data
}

/// The bytes of a generic block.
pub fn write_generic_block(generic_block: &GenericBlock) -> (r: Result<Vec<u8>, Error>)
    ensures
        r matches Ok(b) && b@ == generic_block_bytes(generic_block@),
{
    let block_header = BlockHeader {
        id: to_owned(generic_block.id.as_str()),
        name: to_owned(generic_block.name.as_str()),
        size_compressed: generic_block.data.len(),
        size_uncompressed: generic_block.data.len(),
        is_compressed: true,
    };
    let mut buffer = write_block_header(block_header);
    put_slice(&mut buffer, generic_block.data.as_slice());
    Ok(buffer)
}


impl GenericBlock {
    /// A copy of the block.
    pub fn copy(&self) -> (r: GenericBlock)
        ensures
            r@ == self@,
    {
        let mut data: Vec<u8> = Vec::new();
        put_slice(&mut data, self.data.as_slice());
        GenericBlock { id: to_owned(self.id.as_str()), name: to_owned(self.name.as_str()), data }
    }
}

} // verus!
