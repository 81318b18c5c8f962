//! The byte layout of a container, as spec functions.
//!
//! A container is, in this order: the 80-byte header, one 24-byte record per
//! level, the format's descriptor padded with zero bytes to a multiple of
//! four, and the compressed levels, level 0 first.

use vstd::prelude::*;
use crate::le_bytes::{le_u32, le_u64};

verus! {

/// Why no container was produced.
#[derive(Debug, Clone, Copy, PartialEq, Eq, Structural)]
pub enum EncodeError {
    /// The registry has no usable entry for the format code.
    UnsupportedFormat,
    /// The compressor failed on one of the levels.
    CompressionFailure,
    /// The container's offsets and lengths do not fit the fields that hold them.
    TooLarge,
}

/// Where one level lies in the container, and how large it was and is.
#[derive(Debug, Clone, Copy, PartialEq, Eq, Structural)]
pub struct LevelIndexRecord {
    pub byte_offset: u64,
    pub compressed_byte_length: u64,
    pub uncompressed_byte_length: u64,
}

/// One level after compression.
#[derive(Debug)]
pub struct CompressedLevel {
    pub data: Vec<u8>,
    pub uncompressed_byte_length: u64,
}

/// What a [`CompressedLevel`] stands for.
pub struct LevelModel {
    pub data: Seq<u8>,
    pub uncompressed_byte_length: u64,
}

impl View for CompressedLevel {
    type V = LevelModel;

    open spec fn view(&self) -> LevelModel {
        LevelModel { data: self.data@, uncompressed_byte_length: self.uncompressed_byte_length }
    }
}

/// The models of a sequence of compressed levels, in order.
pub open spec fn level_models(levels: Seq<CompressedLevel>) -> Seq<LevelModel> {
    Seq::new(levels.len(), |i: int| levels[i]@)
}

/// The fields of the 80-byte header that vary from container to container.
#[derive(Debug, Clone, Copy, PartialEq, Eq, Structural)]
pub struct Header {
    pub format_code: u32,
    pub texel_block_size: u32,
    pub width: u32,
    pub height: u32,
    pub depth: u32,
    pub layer_count: u32,
    pub face_count: u32,
    pub level_count: u32,
    pub descriptor_offset: u32,
    pub descriptor_length: u32,
}

/// Length of the header in bytes.
pub const HEADER_LEN: u64 = 80;

/// Length of one level-index record in bytes.
pub const LEVEL_RECORD_LEN: u64 = 24;

/// The supercompression scheme of every container written here: Zstandard.
pub const SUPERCOMPRESSION_SCHEME: u32 = 2;

/// The twelve bytes every container starts with.
pub open spec fn magic() -> Seq<u8> {
    seq![0xABu8, 0x4Bu8, 0x54u8, 0x58u8, 0x20u8, 0x32u8, 0x30u8, 0xBBu8, 0x0Du8, 0x0Au8, 0x1Au8, 0x0Au8]
}

/// Six faces for a cubemap, one otherwise.
pub open spec fn face_count(cubemap: bool) -> u32 {
    if cubemap { 6 } else { 1 }
}

/// The nine fields that describe the texture, 36 bytes.
pub open spec fn texture_fields(h: Header) -> Seq<u8> {
    le_u32(h.format_code) + le_u32(h.texel_block_size) + le_u32(h.width) + le_u32(h.height)
        + le_u32(h.depth) + le_u32(h.layer_count) + le_u32(h.face_count) + le_u32(h.level_count)
        + le_u32(SUPERCOMPRESSION_SCHEME)
}

/// The six fields that locate the regions after the level index, 32 bytes.
/// Key-value data and supercompression global data are absent, so their
/// offsets and lengths are zero.
pub open spec fn region_fields(h: Header) -> Seq<u8> {
    le_u32(h.descriptor_offset) + le_u32(h.descriptor_length) + le_u32(0) + le_u32(0) + le_u64(0)
        + le_u64(0)
}

/// The 80 bytes of the header.
pub open spec fn header_bytes(h: Header) -> Seq<u8> {
    magic() + texture_fields(h) + region_fields(h)
}

/// How many zero bytes follow a descriptor of `len` bytes.
pub open spec fn padding_len(len: nat) -> nat {
    ((4 - len % 4) % 4) as nat
}

/// Length of a descriptor of `len` bytes with its padding.
pub open spec fn padded_len(len: nat) -> nat {
    len + padding_len(len)
}

/// The descriptor followed by zero bytes up to the next multiple of four.
pub open spec fn padded_descriptor(descriptor: Seq<u8>) -> Seq<u8> {
    descriptor + Seq::new(padding_len(descriptor.len()), |i: int| 0u8)
}

/// Offset of the descriptor: it follows the header and the level index.
pub open spec fn descriptor_offset(level_count: nat) -> nat {
    80 + 24 * level_count
}

/// Offset of level 0: it follows the padded descriptor.
pub open spec fn first_level_offset(level_count: nat, descriptor_len: nat) -> nat {
    descriptor_offset(level_count) + padded_len(descriptor_len)
}

/// Total compressed length of the first `k` levels.
pub open spec fn compressed_total(levels: Seq<LevelModel>, k: nat) -> nat
    decreases k,
{
    if k == 0 || k > levels.len() {
        0
    } else {
        compressed_total(levels, (k - 1) as nat) + levels[k - 1].data.len()
    }
}

/// The compressed length of the first levels never exceeds that of more levels.
pub proof fn lemma_compressed_total_grows(levels: Seq<LevelModel>, i: nat, j: nat)
    requires
        i <= j <= levels.len(),
    ensures
        compressed_total(levels, i) <= compressed_total(levels, j),
    decreases j,
{
    if i < j {
        lemma_compressed_total_grows(levels, i, (j - 1) as nat);
    }
}

/// The record of level `i` when level 0 starts at `first`.
pub open spec fn level_record(levels: Seq<LevelModel>, first: nat, i: int) -> LevelIndexRecord {
    LevelIndexRecord {
        byte_offset: (first + compressed_total(levels, i as nat)) as u64,
        compressed_byte_length: levels[i].data.len() as u64,
        uncompressed_byte_length: levels[i].uncompressed_byte_length,
    }
}

/// The level index: one record per level, in the order of the levels.
pub open spec fn level_index(levels: Seq<LevelModel>, first: nat) -> Seq<LevelIndexRecord> {
    Seq::new(levels.len(), |i: int| level_record(levels, first, i))
}

/// The 24 bytes of one record.
pub open spec fn record_bytes(r: LevelIndexRecord) -> Seq<u8> {
    le_u64(r.byte_offset) + le_u64(r.compressed_byte_length) + le_u64(
        r.uncompressed_byte_length,
    )
}

/// The bytes of the records, one after the other.
pub open spec fn level_index_bytes(records: Seq<LevelIndexRecord>) -> Seq<u8>
    decreases records.len(),
{
    if records.len() == 0 {
        Seq::empty()
    } else {
        level_index_bytes(records.drop_last()) + record_bytes(records.last())
    }
}

/// The compressed levels, one after the other.
pub open spec fn payload_bytes(levels: Seq<LevelModel>) -> Seq<u8>
    decreases levels.len(),
{
    if levels.len() == 0 {
        Seq::empty()
    } else {
        payload_bytes(levels.drop_last()) + levels.last().data
    }
}

/// The header of the container for the given texture and levels.
pub open spec fn container_header(
    format_code: u32,
    texel_block_size: u32,
    descriptor_len: nat,
    width: u32,
    height: u32,
    depth: u32,
    layers: u32,
    cubemap: bool,
    level_count: nat,
) -> Header {
    Header {
        format_code,
        texel_block_size,
        width,
        height,
        depth,
        layer_count: layers,
        face_count: face_count(cubemap),
        level_count: level_count as u32,
        descriptor_offset: descriptor_offset(level_count) as u32,
        descriptor_length: descriptor_len as u32,
    }
}

/// Whether every offset and length of the container fits its field: the
/// level count, the descriptor's offset and its length in 32 bits, the end of
/// the last level in 64 bits.
pub open spec fn container_fits(descriptor_len: nat, levels: Seq<LevelModel>) -> bool {
    &&& descriptor_offset(levels.len()) <= u32::MAX
    &&& descriptor_len <= u32::MAX
    &&& first_level_offset(levels.len(), descriptor_len) + compressed_total(levels, levels.len())
        <= u64::MAX
}

/// The whole container.
pub open spec fn container_bytes(
    format_code: u32,
    texel_block_size: u32,
    descriptor: Seq<u8>,
    width: u32,
    height: u32,
    depth: u32,
    layers: u32,
    cubemap: bool,
    levels: Seq<LevelModel>,
) -> Seq<u8> {
    header_bytes(
        container_header(
            format_code,
            texel_block_size,
            descriptor.len(),
            width,
            height,
            depth,
            layers,
            cubemap,
            levels.len(),
        ),
    ) + level_index_bytes(
        level_index(levels, first_level_offset(levels.len(), descriptor.len())),
    ) + padded_descriptor(descriptor) + payload_bytes(levels)
}

} // verus!
