//! What holds of every container: where its regions lie, how long it is,
//! and that its header gives back what was put in.

use vstd::prelude::*;
use crate::layout::{
    compressed_total, container_bytes, container_fits, container_header, descriptor_offset,
    first_level_offset, header_bytes, lemma_compressed_total_grows, level_index,
    level_index_bytes, magic,
    padded_descriptor, padded_len, payload_bytes, record_bytes, region_fields, texture_fields,
    Header, LevelIndexRecord, LevelModel, SUPERCOMPRESSION_SCHEME,
};
use crate::le_bytes::{
    le_u32, le_u64, lemma_le_u32_round_trip, lemma_le_u64_round_trip, u32_from_le, u64_from_le,
};

verus! {

/// A padded descriptor starts with the descriptor, goes on with fewer than
/// four bytes, all of them zero, and has a length that is a multiple of four.
pub proof fn lemma_padded_descriptor(descriptor: Seq<u8>)
    ensures
        padded_descriptor(descriptor).len() == padded_len(descriptor.len()),
        padded_descriptor(descriptor).len() % 4 == 0,
        descriptor.len() <= padded_descriptor(descriptor).len() < descriptor.len() + 4,
        padded_descriptor(descriptor).subrange(0, descriptor.len() as int) == descriptor,
        forall|i: int|
            descriptor.len() <= i < padded_descriptor(descriptor).len() ==> padded_descriptor(
                descriptor,
            )[i] == 0,
{
    assert(padded_descriptor(descriptor).subrange(0, descriptor.len() as int) =~= descriptor);
}

/// No level is longer than all the levels together.
pub proof fn lemma_level_within_total(levels: Seq<LevelModel>, i: int)
    requires
        0 <= i < levels.len(),
    ensures
        compressed_total(levels, i as nat) + levels[i].data.len() == compressed_total(
            levels,
            (i + 1) as nat,
        ),
        compressed_total(levels, (i + 1) as nat) <= compressed_total(levels, levels.len()),
{
    lemma_compressed_total_grows(levels, (i + 1) as nat, levels.len());
}

/// In the level index of a container, level 0 starts right after the header,
/// the index and the padded descriptor, and every other level starts where
/// the level before it ends: offsets never decrease, and they increase
/// wherever the level before has any bytes.
pub proof fn lemma_level_index_contiguous(levels: Seq<LevelModel>, descriptor_len: nat)
    requires
        container_fits(descriptor_len, levels),
    ensures
        ({
            let index = level_index(levels, first_level_offset(levels.len(), descriptor_len));
            &&& index.len() == levels.len()
            &&& levels.len() > 0 ==> index[0].byte_offset == 80 + 24 * levels.len() + padded_len(
                descriptor_len,
            )
            &&& forall|i: int|
                0 <= i < levels.len() ==> (#[trigger] index[i]).compressed_byte_length
                    == levels[i].data.len()
            &&& forall|i: int|
                0 < i < levels.len() ==> (#[trigger] index[i]).byte_offset == index[i
                    - 1].byte_offset + index[i - 1].compressed_byte_length
            &&& forall|i: int|
                0 < i < levels.len() ==> (#[trigger] index[i]).byte_offset >= index[i
                    - 1].byte_offset
            &&& forall|i: int|
                0 < i < levels.len() && levels[i - 1].data.len() > 0 ==> (#[trigger] index[i]).byte_offset
                    > index[i - 1].byte_offset
        }),
{
    let first = first_level_offset(levels.len(), descriptor_len);
    let index = level_index(levels, first);
    assert forall|i: int| 0 <= i < levels.len() implies first + compressed_total(
        levels,
        i as nat,
    ) + levels[i].data.len() <= u64::MAX && (#[trigger] index[i]).compressed_byte_length
        == levels[i].data.len() by {
        lemma_level_within_total(levels, i);
    }
    assert forall|i: int| 0 < i < levels.len() implies (#[trigger] index[i]).byte_offset
        == index[i - 1].byte_offset + index[i - 1].compressed_byte_length by {
        lemma_level_within_total(levels, i - 1);
        lemma_level_within_total(levels, i);
        assert(index[i - 1].compressed_byte_length == levels[i - 1].data.len());
    }
}

/// A level index of `n` records takes `24 * n` bytes.
pub proof fn lemma_level_index_bytes_len(records: Seq<LevelIndexRecord>)
    ensures
        level_index_bytes(records).len() == 24 * records.len(),
    decreases records.len(),
{
    if records.len() > 0 {
        lemma_level_index_bytes_len(records.drop_last());
        lemma_le_u64_round_trip(records.last().byte_offset);
        lemma_le_u64_round_trip(records.last().compressed_byte_length);
        lemma_le_u64_round_trip(records.last().uncompressed_byte_length);
    }
}

/// The payload is as long as the levels together.
pub proof fn lemma_payload_len(levels: Seq<LevelModel>)
    ensures
        payload_bytes(levels).len() == compressed_total(levels, levels.len()),
    decreases levels.len(),
{
    if levels.len() > 0 {
        lemma_payload_len(levels.drop_last());
        lemma_total_of_prefix(levels, (levels.len() - 1) as nat, (levels.len() - 1) as nat);
    }
}

/// The total of the first `k` levels does not depend on the levels after
/// them.
pub proof fn lemma_total_of_prefix(levels: Seq<LevelModel>, m: nat, k: nat)
    requires
        k <= m <= levels.len(),
    ensures
        compressed_total(levels.take(m as int), k) == compressed_total(levels, k),
    decreases k,
{
    if k > 0 {
        lemma_total_of_prefix(levels, m, (k - 1) as nat);
    }
}

/// The header takes 80 bytes.
pub proof fn lemma_header_len(h: Header)
    ensures
        magic().len() == 12,
        texture_fields(h).len() == 36,
        region_fields(h).len() == 32,
        header_bytes(h).len() == 80,
{
    lemma_le_u32_round_trip(h.format_code);
    lemma_le_u32_round_trip(h.texel_block_size);
    lemma_le_u32_round_trip(h.width);
    lemma_le_u32_round_trip(h.height);
    lemma_le_u32_round_trip(h.depth);
    lemma_le_u32_round_trip(h.layer_count);
    lemma_le_u32_round_trip(h.face_count);
    lemma_le_u32_round_trip(h.level_count);
    lemma_le_u32_round_trip(SUPERCOMPRESSION_SCHEME);
    lemma_le_u32_round_trip(h.descriptor_offset);
    lemma_le_u32_round_trip(h.descriptor_length);
    lemma_le_u32_round_trip(0);
    lemma_le_u64_round_trip(0);
}

/// A container is its four regions and nothing else: the header in the first
/// 80 bytes, the level index in the next 24 per level, then the padded
/// descriptor, then the levels up to the last byte. Its length is the offset
/// of level 0 plus the compressed length of all levels.
pub proof fn lemma_container_regions(
    format_code: u32,
    texel_block_size: u32,
    descriptor: Seq<u8>,
    width: u32,
    height: u32,
    depth: u32,
    layers: u32,
    cubemap: bool,
    levels: Seq<LevelModel>,
)
    ensures
        ({
            let c = container_bytes(
                format_code,
                texel_block_size,
                descriptor,
                width,
                height,
                depth,
                layers,
                cubemap,
                levels,
            );
            let h = container_header(
                format_code,
                texel_block_size,
                descriptor.len(),
                width,
                height,
                depth,
                layers,
                cubemap,
                levels.len(),
            );
            let first = first_level_offset(levels.len(), descriptor.len());
            let index_end = descriptor_offset(levels.len()) as int;
            &&& c.len() == first + compressed_total(levels, levels.len())
            &&& c.subrange(0, 80) == header_bytes(h)
            &&& c.subrange(80, index_end) == level_index_bytes(level_index(levels, first))
            &&& c.subrange(index_end, first as int) == padded_descriptor(descriptor)
            &&& c.subrange(first as int, c.len() as int) == payload_bytes(levels)
        }),
{
    let c = container_bytes(
        format_code,
        texel_block_size,
        descriptor,
        width,
        height,
        depth,
        layers,
        cubemap,
        levels,
    );
    let h = container_header(
        format_code,
        texel_block_size,
        descriptor.len(),
        width,
        height,
        depth,
        layers,
        cubemap,
        levels.len(),
    );
    let first = first_level_offset(levels.len(), descriptor.len());
    let index_end = descriptor_offset(levels.len()) as int;
    let index = level_index_bytes(level_index(levels, first));
    lemma_header_len(h);
    lemma_level_index_bytes_len(level_index(levels, first));
    lemma_padded_descriptor(descriptor);
    lemma_payload_len(levels);
    assert(c == header_bytes(h) + index + padded_descriptor(descriptor) + payload_bytes(levels));
    assert(header_bytes(h).len() == 80);
    assert(index.len() == 24 * levels.len());
    assert(c.subrange(0, 80) =~= header_bytes(h));
    assert(c.subrange(80, index_end) =~= index);
    assert(c.subrange(index_end, first as int) =~= padded_descriptor(descriptor));
    assert(c.subrange(first as int, c.len() as int) =~= payload_bytes(levels));
}

/// A container that has levels ends where its index says the last level
/// ends; one without levels ends with the padded descriptor.
pub proof fn lemma_container_len(
    format_code: u32,
    texel_block_size: u32,
    descriptor: Seq<u8>,
    width: u32,
    height: u32,
    depth: u32,
    layers: u32,
    cubemap: bool,
    levels: Seq<LevelModel>,
)
    requires
        container_fits(descriptor.len(), levels),
    ensures
        ({
            let c = container_bytes(
                format_code,
                texel_block_size,
                descriptor,
                width,
                height,
                depth,
                layers,
                cubemap,
                levels,
            );
            let first = first_level_offset(levels.len(), descriptor.len());
            let index = level_index(levels, first);
            &&& levels.len() == 0 ==> c.len() == 80 + padded_len(descriptor.len())
            &&& levels.len() > 0 ==> c.len() == index.last().byte_offset
                + index.last().compressed_byte_length
        }),
{
    lemma_container_regions(
        format_code,
        texel_block_size,
        descriptor,
        width,
        height,
        depth,
        layers,
        cubemap,
        levels,
    );
    if levels.len() > 0 {
        lemma_level_within_total(levels, levels.len() - 1);
    }
}

/// Where each field lies among the fields that describe the texture.
proof fn lemma_texture_fields_at(h: Header)
    ensures
        texture_fields(h).len() == 36,
        texture_fields(h).subrange(0, 4) == le_u32(h.format_code),
        texture_fields(h).subrange(4, 8) == le_u32(h.texel_block_size),
        texture_fields(h).subrange(8, 12) == le_u32(h.width),
        texture_fields(h).subrange(12, 16) == le_u32(h.height),
        texture_fields(h).subrange(16, 20) == le_u32(h.depth),
        texture_fields(h).subrange(20, 24) == le_u32(h.layer_count),
        texture_fields(h).subrange(24, 28) == le_u32(h.face_count),
        texture_fields(h).subrange(28, 32) == le_u32(h.level_count),
        texture_fields(h).subrange(32, 36) == le_u32(SUPERCOMPRESSION_SCHEME),
{
    lemma_le_u32_round_trip(h.format_code);
    lemma_le_u32_round_trip(h.texel_block_size);
    lemma_le_u32_round_trip(h.width);
    lemma_le_u32_round_trip(h.height);
    lemma_le_u32_round_trip(h.depth);
    lemma_le_u32_round_trip(h.layer_count);
    lemma_le_u32_round_trip(h.face_count);
    lemma_le_u32_round_trip(h.level_count);
    lemma_le_u32_round_trip(SUPERCOMPRESSION_SCHEME);
    let t = texture_fields(h);
    assert(t.subrange(0, 4) =~= le_u32(h.format_code));
    assert(t.subrange(4, 8) =~= le_u32(h.texel_block_size));
    assert(t.subrange(8, 12) =~= le_u32(h.width));
    assert(t.subrange(12, 16) =~= le_u32(h.height));
    assert(t.subrange(16, 20) =~= le_u32(h.depth));
    assert(t.subrange(20, 24) =~= le_u32(h.layer_count));
    assert(t.subrange(24, 28) =~= le_u32(h.face_count));
    assert(t.subrange(28, 32) =~= le_u32(h.level_count));
    assert(t.subrange(32, 36) =~= le_u32(SUPERCOMPRESSION_SCHEME));
}

/// Where each field lies among the fields that locate the regions.
proof fn lemma_region_fields_at(h: Header)
    ensures
        region_fields(h).len() == 32,
        region_fields(h).subrange(0, 4) == le_u32(h.descriptor_offset),
        region_fields(h).subrange(4, 8) == le_u32(h.descriptor_length),
        region_fields(h).subrange(8, 12) == le_u32(0),
        region_fields(h).subrange(12, 16) == le_u32(0),
        region_fields(h).subrange(16, 24) == le_u64(0),
        region_fields(h).subrange(24, 32) == le_u64(0),
{
    lemma_le_u32_round_trip(h.descriptor_offset);
    lemma_le_u32_round_trip(h.descriptor_length);
    lemma_le_u32_round_trip(0);
    lemma_le_u64_round_trip(0);
    let r = region_fields(h);
    assert(r.subrange(0, 4) =~= le_u32(h.descriptor_offset));
    assert(r.subrange(4, 8) =~= le_u32(h.descriptor_length));
    assert(r.subrange(8, 12) =~= le_u32(0));
    assert(r.subrange(12, 16) =~= le_u32(0));
    assert(r.subrange(16, 24) =~= le_u64(0));
    assert(r.subrange(24, 32) =~= le_u64(0));
}

/// Reading the fields of a header back, each at its place and least
/// significant byte first, gives the values that were written: the magic in
/// bytes 0 to 11, then the fifteen fields, with the supercompression scheme
/// always 2 and the key-value and global-data fields always zero.
pub proof fn lemma_header_fields(h: Header, c: Seq<u8>)
    requires
        c.len() >= 80,
        c.subrange(0, 80) == header_bytes(h),
    ensures
        c.subrange(0, 12) == magic(),
        u32_from_le(c.subrange(12, 16)) == h.format_code,
        u32_from_le(c.subrange(16, 20)) == h.texel_block_size,
        u32_from_le(c.subrange(20, 24)) == h.width,
        u32_from_le(c.subrange(24, 28)) == h.height,
        u32_from_le(c.subrange(28, 32)) == h.depth,
        u32_from_le(c.subrange(32, 36)) == h.layer_count,
        u32_from_le(c.subrange(36, 40)) == h.face_count,
        u32_from_le(c.subrange(40, 44)) == h.level_count,
        u32_from_le(c.subrange(44, 48)) == SUPERCOMPRESSION_SCHEME,
        u32_from_le(c.subrange(48, 52)) == h.descriptor_offset,
        u32_from_le(c.subrange(52, 56)) == h.descriptor_length,
        u32_from_le(c.subrange(56, 60)) == 0,
        u32_from_le(c.subrange(60, 64)) == 0,
        u64_from_le(c.subrange(64, 72)) == 0,
        u64_from_le(c.subrange(72, 80)) == 0,
{
    let hb = c.subrange(0, 80);
    let t = texture_fields(h);
    let r = region_fields(h);
    lemma_texture_fields_at(h);
    lemma_region_fields_at(h);
    assert(magic().len() == 12);
    assert(hb == magic() + t + r);
    assert(hb.subrange(0, 12) =~= magic());
    assert(hb.subrange(12, 48) =~= t);
    assert(hb.subrange(48, 80) =~= r);
    assert(c.subrange(0, 12) =~= hb.subrange(0, 12));
    assert(c.subrange(12, 16) =~= hb.subrange(12, 48).subrange(0, 4));
    assert(c.subrange(16, 20) =~= hb.subrange(12, 48).subrange(4, 8));
    assert(c.subrange(20, 24) =~= hb.subrange(12, 48).subrange(8, 12));
    assert(c.subrange(24, 28) =~= hb.subrange(12, 48).subrange(12, 16));
    assert(c.subrange(28, 32) =~= hb.subrange(12, 48).subrange(16, 20));
    assert(c.subrange(32, 36) =~= hb.subrange(12, 48).subrange(20, 24));
    assert(c.subrange(36, 40) =~= hb.subrange(12, 48).subrange(24, 28));
    assert(c.subrange(40, 44) =~= hb.subrange(12, 48).subrange(28, 32));
    assert(c.subrange(44, 48) =~= hb.subrange(12, 48).subrange(32, 36));
    assert(c.subrange(48, 52) =~= hb.subrange(48, 80).subrange(0, 4));
    assert(c.subrange(52, 56) =~= hb.subrange(48, 80).subrange(4, 8));
    assert(c.subrange(56, 60) =~= hb.subrange(48, 80).subrange(8, 12));
    assert(c.subrange(60, 64) =~= hb.subrange(48, 80).subrange(12, 16));
    assert(c.subrange(64, 72) =~= hb.subrange(48, 80).subrange(16, 24));
    assert(c.subrange(72, 80) =~= hb.subrange(48, 80).subrange(24, 32));
    lemma_le_u32_round_trip(h.format_code);
    lemma_le_u32_round_trip(h.texel_block_size);
    lemma_le_u32_round_trip(h.width);
    lemma_le_u32_round_trip(h.height);
    lemma_le_u32_round_trip(h.depth);
    lemma_le_u32_round_trip(h.layer_count);
    lemma_le_u32_round_trip(h.face_count);
    lemma_le_u32_round_trip(h.level_count);
    lemma_le_u32_round_trip(SUPERCOMPRESSION_SCHEME);
    lemma_le_u32_round_trip(h.descriptor_offset);
    lemma_le_u32_round_trip(h.descriptor_length);
    lemma_le_u32_round_trip(0);
    lemma_le_u64_round_trip(0);
}

/// Reading the header of a container back gives the caller's format code,
/// width, height, depth and layer count, six faces for a cubemap and one
/// otherwise, the number of levels, the block size and the descriptor's
/// length from the registry, and the descriptor's offset right after the
/// level index.
pub proof fn lemma_container_header_fields(
    format_code: u32,
    texel_block_size: u32,
    descriptor: Seq<u8>,
    width: u32,
    height: u32,
    depth: u32,
    layers: u32,
    cubemap: bool,
    levels: Seq<LevelModel>,
)
    requires
        container_fits(descriptor.len(), levels),
    ensures
        ({
            let c = container_bytes(
                format_code,
                texel_block_size,
                descriptor,
                width,
                height,
                depth,
                layers,
                cubemap,
                levels,
            );
            &&& c.len() >= 80
            &&& c.subrange(0, 12) == magic()
            &&& u32_from_le(c.subrange(12, 16)) == format_code
            &&& u32_from_le(c.subrange(16, 20)) == texel_block_size
            &&& u32_from_le(c.subrange(20, 24)) == width
            &&& u32_from_le(c.subrange(24, 28)) == height
            &&& u32_from_le(c.subrange(28, 32)) == depth
            &&& u32_from_le(c.subrange(32, 36)) == layers
            &&& u32_from_le(c.subrange(36, 40)) == (if cubemap { 6int } else { 1int })
            &&& u32_from_le(c.subrange(40, 44)) == levels.len()
            &&& u32_from_le(c.subrange(44, 48)) == 2
            &&& u32_from_le(c.subrange(48, 52)) == 80 + 24 * levels.len()
            &&& u32_from_le(c.subrange(52, 56)) == descriptor.len()
            &&& u32_from_le(c.subrange(56, 60)) == 0
            &&& u32_from_le(c.subrange(60, 64)) == 0
            &&& u64_from_le(c.subrange(64, 72)) == 0
            &&& u64_from_le(c.subrange(72, 80)) == 0
        }),
{
    let c = container_bytes(
        format_code,
        texel_block_size,
        descriptor,
        width,
        height,
        depth,
        layers,
        cubemap,
        levels,
    );
    let h = container_header(
        format_code,
        texel_block_size,
        descriptor.len(),
        width,
        height,
        depth,
        layers,
        cubemap,
        levels.len(),
    );
    lemma_container_regions(
        format_code,
        texel_block_size,
        descriptor,
        width,
        height,
        depth,
        layers,
        cubemap,
        levels,
    );
    lemma_header_fields(h, c);
}

/// A record takes 24 bytes, and reading its three fields back gives the
/// record.
pub proof fn lemma_record_fields(r: LevelIndexRecord)
    ensures
        record_bytes(r).len() == 24,
        u64_from_le(record_bytes(r).subrange(0, 8)) == r.byte_offset,
        u64_from_le(record_bytes(r).subrange(8, 16)) == r.compressed_byte_length,
        u64_from_le(record_bytes(r).subrange(16, 24)) == r.uncompressed_byte_length,
{
    lemma_le_u64_round_trip(r.byte_offset);
    lemma_le_u64_round_trip(r.compressed_byte_length);
    lemma_le_u64_round_trip(r.uncompressed_byte_length);
    assert(record_bytes(r).subrange(0, 8) =~= le_u64(r.byte_offset));
    assert(record_bytes(r).subrange(8, 16) =~= le_u64(r.compressed_byte_length));
    assert(record_bytes(r).subrange(16, 24) =~= le_u64(r.uncompressed_byte_length));
}

/// Record `i` lies `24 * i` bytes into the level index.
pub proof fn lemma_record_at(records: Seq<LevelIndexRecord>, i: int)
    requires
        0 <= i < records.len(),
    ensures
        level_index_bytes(records).len() == 24 * records.len(),
        level_index_bytes(records).subrange(24 * i, 24 * i + 24) == record_bytes(records[i]),
    decreases records.len(),
{
    let front = records.drop_last();
    lemma_level_index_bytes_len(records);
    lemma_level_index_bytes_len(front);
    lemma_record_fields(records.last());
    if i == records.len() - 1 {
        assert(level_index_bytes(records).subrange(24 * i, 24 * i + 24) =~= record_bytes(
            records.last(),
        ));
    } else {
        lemma_record_at(front, i);
        assert(front[i] == records[i]);
        assert(level_index_bytes(records).subrange(24 * i, 24 * i + 24) =~= level_index_bytes(
            front,
        ).subrange(24 * i, 24 * i + 24));
    }
}

/// Level `i` lies in the payload after the levels before it.
pub proof fn lemma_level_at(levels: Seq<LevelModel>, i: int)
    requires
        0 <= i < levels.len(),
    ensures
        payload_bytes(levels).len() == compressed_total(levels, levels.len()),
        compressed_total(levels, i as nat) + levels[i].data.len() <= payload_bytes(levels).len(),
        payload_bytes(levels).subrange(
            compressed_total(levels, i as nat) as int,
            (compressed_total(levels, i as nat) + levels[i].data.len()) as int,
        ) == levels[i].data,
    decreases levels.len(),
{
    let front = levels.drop_last();
    let start = compressed_total(levels, i as nat) as int;
    lemma_payload_len(levels);
    lemma_payload_len(front);
    lemma_level_within_total(levels, i);
    lemma_total_of_prefix(levels, (levels.len() - 1) as nat, (levels.len() - 1) as nat);
    if i == levels.len() - 1 {
        assert(payload_bytes(levels).subrange(start, start + levels[i].data.len())
            =~= levels.last().data);
    } else {
        lemma_level_at(front, i);
        lemma_total_of_prefix(levels, (levels.len() - 1) as nat, i as nat);
        assert(front[i] == levels[i]);
        assert(payload_bytes(levels).subrange(start, start + levels[i].data.len())
            =~= payload_bytes(front).subrange(start, start + levels[i].data.len()));
    }
}

/// A part of a region of `s` is a part of `s`, further along by the region's
/// start.
proof fn lemma_part_of_region(s: Seq<u8>, start: int, end: int, from: int, to: int)
    requires
        0 <= start <= end <= s.len(),
        0 <= from <= to <= end - start,
    ensures
        s.subrange(start, end).subrange(from, to) == s.subrange(start + from, start + to),
{
    assert(s.subrange(start, end).subrange(from, to) =~= s.subrange(start + from, start + to));
}

/// Everything about level `i` can be read back from a container: its record
/// lies at byte `80 + 24 * i` and holds the level's offset, its compressed
/// length and the length it had before compression, and the bytes from that
/// offset on, as many as the compressed length says, are the compressed
/// level.
pub proof fn lemma_container_level(
    format_code: u32,
    texel_block_size: u32,
    descriptor: Seq<u8>,
    width: u32,
    height: u32,
    depth: u32,
    layers: u32,
    cubemap: bool,
    levels: Seq<LevelModel>,
    i: int,
)
    requires
        container_fits(descriptor.len(), levels),
        0 <= i < levels.len(),
    ensures
        ({
            let c = container_bytes(
                format_code,
                texel_block_size,
                descriptor,
                width,
                height,
                depth,
                layers,
                cubemap,
                levels,
            );
            let first = first_level_offset(levels.len(), descriptor.len());
            let offset = (first + compressed_total(levels, i as nat)) as int;
            &&& offset + levels[i].data.len() <= c.len()
            &&& u64_from_le(c.subrange(80 + 24 * i, 80 + 24 * i + 8)) == offset
            &&& u64_from_le(c.subrange(80 + 24 * i + 8, 80 + 24 * i + 16)) == levels[i].data.len()
            &&& u64_from_le(c.subrange(80 + 24 * i + 16, 80 + 24 * i + 24))
                == levels[i].uncompressed_byte_length
            &&& c.subrange(offset, offset + levels[i].data.len()) == levels[i].data
        }),
{
    let c = container_bytes(
        format_code,
        texel_block_size,
        descriptor,
        width,
        height,
        depth,
        layers,
        cubemap,
        levels,
    );
    let first = first_level_offset(levels.len(), descriptor.len());
    let index = level_index(levels, first);
    let index_bytes = level_index_bytes(index);
    let payload = payload_bytes(levels);
    let offset = (first + compressed_total(levels, i as nat)) as int;
    let index_end = descriptor_offset(levels.len()) as int;
    let at = 80 + 24 * i;
    lemma_container_regions(
        format_code,
        texel_block_size,
        descriptor,
        width,
        height,
        depth,
        layers,
        cubemap,
        levels,
    );
    lemma_level_within_total(levels, i);
    lemma_record_at(index, i);
    lemma_record_fields(index[i]);
    lemma_level_at(levels, i);
    lemma_part_of_region(c, 80, index_end, 24 * i, 24 * i + 8);
    lemma_part_of_region(c, 80, index_end, 24 * i + 8, 24 * i + 16);
    lemma_part_of_region(c, 80, index_end, 24 * i + 16, 24 * i + 24);
    lemma_part_of_region(index_bytes, 24 * i, 24 * i + 24, 0, 8);
    lemma_part_of_region(index_bytes, 24 * i, 24 * i + 24, 8, 16);
    lemma_part_of_region(index_bytes, 24 * i, 24 * i + 24, 16, 24);
    lemma_part_of_region(
        c,
        first as int,
        c.len() as int,
        compressed_total(levels, i as nat) as int,
        (compressed_total(levels, i as nat) + levels[i].data.len()) as int,
    );
}

} // verus!
