//! Assembly of a container from a texture's description and its levels.

use vstd::prelude::*;
use crate::compress::{compress_levels, compressed_models, raw_levels};
use crate::layout::{
    compressed_total, container_bytes, container_fits, container_header, first_level_offset,
    header_bytes, lemma_compressed_total_grows, level_index, level_index_bytes, level_models,
    level_record, magic, padded_descriptor, padding_len, payload_bytes, record_bytes,
    region_fields, texture_fields, CompressedLevel, EncodeError, Header, LevelIndexRecord,
    HEADER_LEN, LEVEL_RECORD_LEN, SUPERCOMPRESSION_SCHEME,
};
use crate::le_bytes::{le_u32, le_u64, push_u32_le, push_u64_le};
use crate::registry::{FormatEntry, FormatRegistry};

verus! {

/// The most levels whose index still ends within 32 bits.
pub const MAX_LEVEL_COUNT: usize = 178_956_967;

/// Whether a container of these levels, with a descriptor of this length,
/// can be written, that is whether [`assemble_container`] may be called: see
/// [`container_fits`].
pub fn can_assemble(descriptor_len: usize, levels: &Vec<CompressedLevel>) -> (fits: bool)
    ensures
        fits == container_fits(descriptor_len as nat, level_models(levels@)),
{
    let ghost models = level_models(levels@);
    let n: usize = levels.len();
    if n > MAX_LEVEL_COUNT || descriptor_len > 0xFFFF_FFFF {
        return false;
    }
    let d: u64 = descriptor_len as u64;
    let padded: u64 = d + (4 - d % 4) % 4;
    let mut end: u64 = HEADER_LEN + LEVEL_RECORD_LEN * (n as u64) + padded;
    let mut i: usize = 0;
    while i < n
        invariant
            n == levels@.len(),
            models == level_models(levels@),
            i <= n,
            end == first_level_offset(n as nat, descriptor_len as nat) + compressed_total(
                models,
                i as nat,
            ),
        decreases n - i,
    {
        let len: u64 = levels[i].data.len() as u64;
        proof {
            lemma_compressed_total_grows(models, (i + 1) as nat, n as nat);
        }
        if len > u64::MAX - end {
            return false;
        }
        end = end + len;
        i += 1;
    }
    true
}

/// The level index of `levels` when the header and the index take
/// `header_plus_index_len` bytes and the padded descriptor
/// `padded_descriptor_len`: level 0 starts where these two end, and every
/// other level where the level before it ends.
pub fn build_level_index(
    levels: &Vec<CompressedLevel>,
    header_plus_index_len: u64,
    padded_descriptor_len: u64,
) -> (records: Vec<LevelIndexRecord>)
    requires
        header_plus_index_len + padded_descriptor_len + compressed_total(
            level_models(levels@),
            levels@.len(),
        ) <= u64::MAX,
    ensures
        records@ == level_index(
            level_models(levels@),
            (header_plus_index_len + padded_descriptor_len) as nat,
        ),
        records@.len() == levels@.len(),
        records@.len() > 0 ==> records@[0].byte_offset == header_plus_index_len
            + padded_descriptor_len,
        forall|i: int|
            0 < i < records@.len() ==> (#[trigger] records@[i]).byte_offset == records@[i
                - 1].byte_offset + records@[i - 1].compressed_byte_length,
        forall|i: int|
            0 <= i < records@.len() ==> (#[trigger] records@[i]).compressed_byte_length
                == levels@[i].data@.len() && records@[i].uncompressed_byte_length
                == levels@[i].uncompressed_byte_length,
{
    let ghost models = level_models(levels@);
    let ghost first = (header_plus_index_len + padded_descriptor_len) as nat;
    let n: usize = levels.len();
    let mut records: Vec<LevelIndexRecord> = Vec::new();
    let mut offset: u64 = header_plus_index_len + padded_descriptor_len;
    let mut i: usize = 0;
    while i < n
        invariant
            n == levels@.len(),
            models == level_models(levels@),
            first == header_plus_index_len + padded_descriptor_len,
            first + compressed_total(models, n as nat) <= u64::MAX,
            i <= n,
            records@.len() == i,
            offset == first + compressed_total(models, i as nat),
            forall|k: int| 0 <= k < i ==> #[trigger] records@[k] == level_record(models, first, k),
            forall|k: int|
                0 <= k < i ==> (#[trigger] records@[k]).compressed_byte_length
                    == levels@[k].data@.len(),
        decreases n - i,
    {
        let len: u64 = levels[i].data.len() as u64;
        proof {
            lemma_compressed_total_grows(models, (i + 1) as nat, n as nat);
        }
        records.push(
            LevelIndexRecord {
                byte_offset: offset,
                compressed_byte_length: len,
                uncompressed_byte_length: levels[i].uncompressed_byte_length,
            },
        );
        offset = offset + len;
        i += 1;
    }
    proof {
        assert(records@ =~= level_index(models, first));
        assert forall|k: int| 0 < k < records@.len() implies (#[trigger] records@[k]).byte_offset
            == records@[k - 1].byte_offset + records@[k - 1].compressed_byte_length by {
            lemma_compressed_total_grows(models, k as nat, n as nat);
        }
        assert forall|k: int| 0 <= k < records@.len() implies (#[trigger] records@[k]).compressed_byte_length
            == levels@[k].data@.len() && records@[k].uncompressed_byte_length
            == levels@[k].uncompressed_byte_length by {
            assert(records@[k] == level_record(models, first, k));
            assert(models[k] == levels@[k]@);
        }
    }
    records
}

/// Appending is associative.
proof fn lemma_append_assoc(a: Seq<u8>, b: Seq<u8>, c: Seq<u8>)
    ensures
        (a + b) + c == a + (b + c),
{
    assert((a + b) + c =~= a + (b + c));
}

/// Appends the twelve bytes that open every container.
fn write_magic(out: &mut Vec<u8>)
    ensures
        final(out)@ == old(out)@ + magic(),
{
    out.push(0xAB);
    out.push(0x4B);
    out.push(0x54);
    out.push(0x58);
    out.push(0x20);
    out.push(0x32);
    out.push(0x30);
    out.push(0xBB);
    out.push(0x0D);
    out.push(0x0A);
    out.push(0x1A);
    out.push(0x0A);
    assert(out@ =~= old(out)@ + magic());
}

/// Appends the fields that describe the texture.
fn write_texture_fields(out: &mut Vec<u8>, h: &Header)
    ensures
        final(out)@ == old(out)@ + texture_fields(*h),
{
    let ghost start = out@;
    push_u32_le(out, h.format_code);
    let ghost acc = le_u32(h.format_code);
    push_u32_le(out, h.texel_block_size);
    proof {
        lemma_append_assoc(start, acc, le_u32(h.texel_block_size));
        acc = acc + le_u32(h.texel_block_size);
    }
    push_u32_le(out, h.width);
    proof {
        lemma_append_assoc(start, acc, le_u32(h.width));
        acc = acc + le_u32(h.width);
    }
    push_u32_le(out, h.height);
    proof {
        lemma_append_assoc(start, acc, le_u32(h.height));
        acc = acc + le_u32(h.height);
    }
    push_u32_le(out, h.depth);
    proof {
        lemma_append_assoc(start, acc, le_u32(h.depth));
        acc = acc + le_u32(h.depth);
    }
    push_u32_le(out, h.layer_count);
    proof {
        lemma_append_assoc(start, acc, le_u32(h.layer_count));
        acc = acc + le_u32(h.layer_count);
    }
    push_u32_le(out, h.face_count);
    proof {
        lemma_append_assoc(start, acc, le_u32(h.face_count));
        acc = acc + le_u32(h.face_count);
    }
    push_u32_le(out, h.level_count);
    proof {
        lemma_append_assoc(start, acc, le_u32(h.level_count));
        acc = acc + le_u32(h.level_count);
    }
    push_u32_le(out, SUPERCOMPRESSION_SCHEME);
    proof {
        lemma_append_assoc(start, acc, le_u32(SUPERCOMPRESSION_SCHEME));
    }
}

/// Appends the fields that locate the regions after the level index.
fn write_region_fields(out: &mut Vec<u8>, h: &Header)
    ensures
        final(out)@ == old(out)@ + region_fields(*h),
{
    let ghost start = out@;
    push_u32_le(out, h.descriptor_offset);
    let ghost acc = le_u32(h.descriptor_offset);
    push_u32_le(out, h.descriptor_length);
    proof {
        lemma_append_assoc(start, acc, le_u32(h.descriptor_length));
        acc = acc + le_u32(h.descriptor_length);
    }
    push_u32_le(out, 0);
    proof {
        lemma_append_assoc(start, acc, le_u32(0));
        acc = acc + le_u32(0);
    }
    push_u32_le(out, 0);
    proof {
        lemma_append_assoc(start, acc, le_u32(0));
        acc = acc + le_u32(0);
    }
    push_u64_le(out, 0);
    proof {
        lemma_append_assoc(start, acc, le_u64(0));
        acc = acc + le_u64(0);
    }
    push_u64_le(out, 0);
    proof {
        lemma_append_assoc(start, acc, le_u64(0));
    }
}

/// Appends the 80 bytes of the header.
pub fn write_header(out: &mut Vec<u8>, h: &Header)
    ensures
        final(out)@ == old(out)@ + header_bytes(*h),
{
    write_magic(out);
    write_texture_fields(out, h);
    write_region_fields(out, h);
    proof {
        lemma_append_assoc(old(out)@, magic(), texture_fields(*h));
        lemma_append_assoc(old(out)@, magic() + texture_fields(*h), region_fields(*h));
    }
}

/// Appends the records of the level index, 24 bytes each.
pub fn write_level_index(out: &mut Vec<u8>, records: &Vec<LevelIndexRecord>)
    ensures
        final(out)@ == old(out)@ + level_index_bytes(records@),
{
    let n: usize = records.len();
    let mut i: usize = 0;
    while i < n
        invariant
            n == records@.len(),
            i <= n,
            out@ == old(out)@ + level_index_bytes(records@.take(i as int)),
        decreases n - i,
    {
        let r: LevelIndexRecord = records[i];
        let ghost before = out@;
        push_u64_le(out, r.byte_offset);
        push_u64_le(out, r.compressed_byte_length);
        push_u64_le(out, r.uncompressed_byte_length);
        proof {
            let next = records@.take(i + 1);
            assert(next.drop_last() =~= records@.take(i as int));
            assert(next.last() == r);
            assert(out@ =~= before + record_bytes(r));
            assert(out@ =~= old(out)@ + level_index_bytes(next));
        }
        i += 1;
    }
    assert(records@.take(n as int) =~= records@);
}

/// Appends the descriptor and then zero bytes up to a multiple of four.
pub fn write_padded_descriptor(out: &mut Vec<u8>, descriptor: &[u8])
    ensures
        final(out)@ == old(out)@ + padded_descriptor(descriptor@),
{
    out.extend_from_slice(descriptor);
    let pad: usize = (4 - descriptor.len() % 4) % 4;
    let mut j: usize = 0;
    while j < pad
        invariant
            j <= pad,
            pad == padding_len(descriptor@.len()),
            out@ == old(out)@ + descriptor@ + Seq::new(j as nat, |i: int| 0u8),
        decreases pad - j,
    {
        out.push(0);
        j += 1;
        assert(out@ =~= old(out)@ + descriptor@ + Seq::new(j as nat, |i: int| 0u8));
    }
    assert(out@ =~= old(out)@ + padded_descriptor(descriptor@));
}

/// Appends the compressed levels, level 0 first.
pub fn write_payload(out: &mut Vec<u8>, levels: &Vec<CompressedLevel>)
    ensures
        final(out)@ == old(out)@ + payload_bytes(level_models(levels@)),
{
    let ghost models = level_models(levels@);
    let n: usize = levels.len();
    let mut i: usize = 0;
    while i < n
        invariant
            n == levels@.len(),
            models == level_models(levels@),
            i <= n,
            out@ == old(out)@ + payload_bytes(models.take(i as int)),
        decreases n - i,
    {
        out.extend_from_slice(levels[i].data.as_slice());
        proof {
            let next = models.take(i + 1);
            assert(next.drop_last() =~= models.take(i as int));
            assert(next.last().data == levels@[i as int].data@);
            assert(out@ =~= old(out)@ + payload_bytes(next));
        }
        i += 1;
    }
    assert(models.take(n as int) =~= models);
}

/// Writes the container of a texture whose levels are already compressed:
/// header, level index, padded descriptor and levels, with nothing before,
/// between or after them.
pub fn assemble_container(
    entry: &FormatEntry<'_>,
    width: u32,
    height: u32,
    depth: u32,
    layers: u32,
    cubemap: bool,
    levels: &Vec<CompressedLevel>,
) -> (out: Vec<u8>)
    requires
        container_fits(entry.descriptor@.len(), level_models(levels@)),
    ensures
        out@ == container_bytes(
            entry.format_code,
            entry.texel_block_size,
            entry.descriptor@,
            width,
            height,
            depth,
            layers,
            cubemap,
            level_models(levels@),
        ),
{
    let n: usize = levels.len();
    let descriptor_len: usize = entry.descriptor.len();
    let index_end: u64 = HEADER_LEN + LEVEL_RECORD_LEN * (n as u64);
    let d: u64 = descriptor_len as u64;
    let padded: u64 = d + (4 - d % 4) % 4;
    let header = Header {
        format_code: entry.format_code,
        texel_block_size: entry.texel_block_size,
        width,
        height,
        depth,
        layer_count: layers,
        face_count: if cubemap { 6 } else { 1 },
        level_count: n as u32,
        descriptor_offset: index_end as u32,
        descriptor_length: descriptor_len as u32,
    };
    let records = build_level_index(levels, index_end, padded);
    let mut out: Vec<u8> = Vec::new();
    write_header(&mut out, &header);
    write_level_index(&mut out, &records);
    write_padded_descriptor(&mut out, entry.descriptor);
    write_payload(&mut out, levels);
    proof {
        assert(header == container_header(
            entry.format_code,
            entry.texel_block_size,
            entry.descriptor@.len(),
            width,
            height,
            depth,
            layers,
            cubemap,
            levels@.len(),
        ));
        assert(out@ =~= container_bytes(
            entry.format_code,
            entry.texel_block_size,
            entry.descriptor@,
            width,
            height,
            depth,
            layers,
            cubemap,
            level_models(levels@),
        ));
    }
    out
}

/// Writes the container of a texture from its raw levels, level 0 first.
///
/// The format is looked up before anything is compressed. Each level is then
/// compressed on its own at `compression_level`, and the container is
/// assembled from the results. Either the whole container is returned, or an
/// error and no bytes.
pub fn encode_ktx2(
    registry: &FormatRegistry,
    image_slices: &[Vec<u8>],
    width: u32,
    height: u32,
    depth: u32,
    layers: u32,
    cubemap: bool,
    format_code: u32,
    compression_level: i32,
) -> (out: Result<Vec<u8>, EncodeError>)
    ensures
        !registry.supports(format_code) ==> out == Err::<Vec<u8>, EncodeError>(
            EncodeError::UnsupportedFormat,
        ),
        registry.supports(format_code) ==> match out {
            Ok(bytes) => {
                &&& container_fits(
                    registry.descriptor_of(format_code).len(),
                    compressed_models(raw_levels(image_slices@), compression_level),
                )
                &&& bytes@ == container_bytes(
                    format_code,
                    registry.block_size_of(format_code),
                    registry.descriptor_of(format_code),
                    width,
                    height,
                    depth,
                    layers,
                    cubemap,
                    compressed_models(raw_levels(image_slices@), compression_level),
                )
            },
            Err(EncodeError::UnsupportedFormat) => false,
            Err(EncodeError::CompressionFailure) => image_slices@.len() > 0,
            Err(EncodeError::TooLarge) => !container_fits(
                registry.descriptor_of(format_code).len(),
                compressed_models(raw_levels(image_slices@), compression_level),
            ),
        },
{
    let entry = match registry.lookup(format_code) {
        Ok(entry) => entry,
        Err(e) => {
            return Err(e);
        },
    };
    let levels = match compress_levels(image_slices, compression_level) {
        Ok(levels) => levels,
        Err(e) => {
            return Err(e);
        },
    };
    if !can_assemble(entry.descriptor.len(), &levels) {
        return Err(EncodeError::TooLarge);
    }
    Ok(assemble_container(&entry, width, height, depth, layers, cubemap, &levels))
}

} // verus!
