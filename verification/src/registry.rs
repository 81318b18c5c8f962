//! The table of pixel formats: for each format code its descriptor and the
//! byte size of its texel block.

use vstd::prelude::*;
use crate::layout::EncodeError;

verus! {

/// What the registry holds for one supported format.
#[derive(Debug, Clone, Copy)]
pub struct FormatEntry<'a> {
    pub format_code: u32,
    pub descriptor: &'a [u8],
    pub texel_block_size: u32,
}

/// Two tables indexed by format code. A code beyond a table's end, an empty
/// descriptor and a block size of zero all mean that the format is not
/// supported.
#[derive(Debug)]
pub struct FormatRegistry {
    pub descriptors: Vec<Vec<u8>>,
    pub block_sizes: Vec<u32>,
}

impl FormatRegistry {
    /// The descriptor stored for `format_code`; empty where there is none.
    pub open spec fn descriptor_of(&self, format_code: u32) -> Seq<u8> {
        if format_code < self.descriptors@.len() {
            self.descriptors@[format_code as int]@
        } else {
            Seq::empty()
        }
    }

    /// The block size stored for `format_code`; zero where there is none.
    pub open spec fn block_size_of(&self, format_code: u32) -> u32 {
        if format_code < self.block_sizes@.len() {
            self.block_sizes@[format_code as int]
        } else {
            0
        }
    }

    /// A format is supported when it has a descriptor and a block size.
    pub open spec fn supports(&self, format_code: u32) -> bool {
        self.descriptor_of(format_code).len() > 0 && self.block_size_of(format_code) > 0
    }

    /// A registry over the two tables, each indexed by format code.
    pub fn from_tables(descriptors: Vec<Vec<u8>>, block_sizes: Vec<u32>) -> (registry: Self)
        ensures
            registry.descriptors == descriptors,
            registry.block_sizes == block_sizes,
    {
        FormatRegistry { descriptors, block_sizes }
    }

    /// The entry of a supported format, `UnsupportedFormat` for every other
    /// code.
    pub fn lookup(&self, format_code: u32) -> (found: Result<FormatEntry<'_>, EncodeError>)
        ensures
            found is Ok <==> self.supports(format_code),
            found matches Ok(entry) ==> {
                &&& entry.format_code == format_code
                &&& entry.descriptor@ == self.descriptor_of(format_code)
                &&& entry.texel_block_size == self.block_size_of(format_code)
                &&& entry.descriptor@.len() > 0
                &&& entry.texel_block_size > 0
            },
            found matches Err(e) ==> e == EncodeError::UnsupportedFormat,
    {
        let at: usize = format_code as usize;
        if at >= self.descriptors.len() || at >= self.block_sizes.len() {
            return Err(EncodeError::UnsupportedFormat);
        }
        let descriptor: &[u8] = self.descriptors[at].as_slice();
        let texel_block_size: u32 = self.block_sizes[at];
        if descriptor.len() == 0 || texel_block_size == 0 {
            return Err(EncodeError::UnsupportedFormat);
        }
        Ok(FormatEntry { format_code, descriptor, texel_block_size })
    }
}

} // verus!
