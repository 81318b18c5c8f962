use ktx2_encode::encode::{write_header, write_level_index, write_padded_descriptor, write_payload};
use ktx2_encode::{
    assemble_container, build_level_index, can_assemble, compress_level, compress_levels,
    encode_ktx2, CompressedLevel, EncodeError, FormatEntry, FormatRegistry, Header,
    LevelIndexRecord,
};

const MAGIC: [u8; 12] = [0xAB, 0x4B, 0x54, 0x58, 0x20, 0x32, 0x30, 0xBB, 0x0D, 0x0A, 0x1A, 0x0A];

// A registry in which code 37 has a 92-byte descriptor and code 9 one of 5
// bytes.
fn sample_registry() -> FormatRegistry {
    let mut descriptors: Vec<Vec<u8>> = vec![Vec::new(); 38];
    let mut block_sizes: Vec<u32> = vec![0; 38];
    descriptors[37] = (0..92u8).map(|b| b.wrapping_mul(3).wrapping_add(1)).collect();
    block_sizes[37] = 1;
    descriptors[9] = vec![1, 2, 3, 4, 5];
    block_sizes[9] = 4;
    FormatRegistry::from_tables(descriptors, block_sizes)
}

fn u32_at(bytes: &[u8], at: usize) -> u32 {
    u32::from_le_bytes(bytes[at..at + 4].try_into().unwrap())
}

fn u64_at(bytes: &[u8], at: usize) -> u64 {
    u64::from_le_bytes(bytes[at..at + 8].try_into().unwrap())
}

fn level(data: &[u8], uncompressed_byte_length: u64) -> CompressedLevel {
    CompressedLevel { data: data.to_vec(), uncompressed_byte_length }
}

fn raw_level(len: usize, seed: u8) -> Vec<u8> {
    (0..len).map(|i| (i as u8 / 4).wrapping_add(seed)).collect()
}

#[test]
fn level_index_starts_after_the_descriptor_and_has_no_gaps() {
    let levels = vec![level(&[1, 2, 3], 10), level(&[], 0), level(&[4, 5, 6, 7, 8], 99)];
    let records = build_level_index(&levels, 80 + 24 * 3, 8);
    assert_eq!(
        records,
        vec![
            LevelIndexRecord {
                byte_offset: 160,
                compressed_byte_length: 3,
                uncompressed_byte_length: 10
            },
            LevelIndexRecord {
                byte_offset: 163,
                compressed_byte_length: 0,
                uncompressed_byte_length: 0
            },
            LevelIndexRecord {
                byte_offset: 163,
                compressed_byte_length: 5,
                uncompressed_byte_length: 99
            },
        ]
    );
}

#[test]
fn level_index_of_no_levels_is_empty() {
    let records = build_level_index(&Vec::new(), 80, 92);
    assert!(records.is_empty());
}

#[test]
fn header_is_eighty_bytes_in_field_order() {
    let header = Header {
        format_code: 37,
        texel_block_size: 1,
        width: 640,
        height: 480,
        depth: 3,
        layer_count: 7,
        face_count: 6,
        level_count: 2,
        descriptor_offset: 128,
        descriptor_length: 92,
    };
    let mut out = Vec::new();
    write_header(&mut out, &header);
    let mut expected = MAGIC.to_vec();
    for field in [37u32, 1, 640, 480, 3, 7, 6, 2, 2, 128, 92, 0, 0] {
        expected.extend_from_slice(&field.to_le_bytes());
    }
    expected.extend_from_slice(&[0u8; 16]);
    assert_eq!(out.len(), 80);
    assert_eq!(out, expected);
}

#[test]
fn level_index_records_take_24_bytes_each() {
    let records = vec![
        LevelIndexRecord {
            byte_offset: 0x0102_0304_0506_0708,
            compressed_byte_length: 3,
            uncompressed_byte_length: 10,
        },
        LevelIndexRecord { byte_offset: 5, compressed_byte_length: 6, uncompressed_byte_length: 7 },
    ];
    let mut out = vec![0xEEu8];
    write_level_index(&mut out, &records);
    let mut expected = vec![0xEEu8];
    for field in [0x0102_0304_0506_0708u64, 3, 10, 5, 6, 7] {
        expected.extend_from_slice(&field.to_le_bytes());
    }
    assert_eq!(out, expected);
}

#[test]
fn descriptor_is_padded_with_zero_bytes_to_a_multiple_of_four() {
    let cases: [(&[u8], &[u8]); 6] = [
        (&[], &[]),
        (&[7], &[7, 0, 0, 0]),
        (&[7, 8], &[7, 8, 0, 0]),
        (&[7, 8, 9], &[7, 8, 9, 0]),
        (&[7, 8, 9, 10], &[7, 8, 9, 10]),
        (&[1, 2, 3, 4, 5], &[1, 2, 3, 4, 5, 0, 0, 0]),
    ];
    for (descriptor, padded) in cases {
        let mut out = Vec::new();
        write_padded_descriptor(&mut out, descriptor);
        assert_eq!(out, padded.to_vec());
        assert_eq!(out.len() % 4, 0);
    }
}

#[test]
fn padding_depends_on_the_descriptor_not_on_what_precedes_it() {
    let mut out = vec![0xAAu8];
    write_padded_descriptor(&mut out, &[1, 2, 3]);
    assert_eq!(out, vec![0xAA, 1, 2, 3, 0]);
}

#[test]
fn payload_is_the_levels_in_order() {
    let levels = vec![level(&[1, 2, 3], 10), level(&[], 0), level(&[4, 5], 99)];
    let mut out = vec![0x55u8];
    write_payload(&mut out, &levels);
    assert_eq!(out, vec![0x55, 1, 2, 3, 4, 5]);
}

#[test]
fn assembled_container_matches_the_layout_byte_for_byte() {
    let descriptor = [1u8, 2, 3, 4, 5];
    let entry = FormatEntry { format_code: 9, descriptor: &descriptor, texel_block_size: 4 };
    let levels = vec![level(&[0xAA, 0xBB, 0xCC], 10), level(&[0xDD], 3)];
    assert!(can_assemble(descriptor.len(), &levels));
    let out = assemble_container(&entry, 4, 2, 0, 0, false, &levels);

    let mut expected = MAGIC.to_vec();
    for field in [9u32, 4, 4, 2, 0, 0, 1, 2, 2, 128, 5, 0, 0] {
        expected.extend_from_slice(&field.to_le_bytes());
    }
    expected.extend_from_slice(&[0u8; 16]);
    for field in [136u64, 3, 10, 139, 1, 3] {
        expected.extend_from_slice(&field.to_le_bytes());
    }
    expected.extend_from_slice(&[1, 2, 3, 4, 5, 0, 0, 0]);
    expected.extend_from_slice(&[0xAA, 0xBB, 0xCC, 0xDD]);
    assert_eq!(out.len(), 140);
    assert_eq!(out, expected);
}

#[test]
fn container_without_levels_ends_with_the_descriptor() {
    let descriptor = [1u8, 2, 3, 4, 5, 6];
    let entry = FormatEntry { format_code: 9, descriptor: &descriptor, texel_block_size: 4 };
    let out = assemble_container(&entry, 1, 1, 0, 0, true, &Vec::new());
    assert_eq!(out.len(), 88);
    assert_eq!(u32_at(&out, 36), 6);
    assert_eq!(u32_at(&out, 40), 0);
    assert_eq!(u32_at(&out, 48), 80);
    assert_eq!(u32_at(&out, 52), 6);
    assert_eq!(&out[80..], &[1, 2, 3, 4, 5, 6, 0, 0]);
}

#[test]
fn fits_when_every_field_can_hold_its_value() {
    assert!(can_assemble(0, &Vec::new()));
    assert!(can_assemble(92, &vec![level(&[1, 2, 3], 3)]));
    assert!(can_assemble(u32::MAX as usize, &Vec::new()));
}

#[test]
fn does_not_fit_when_the_descriptor_length_needs_more_than_32_bits() {
    if usize::BITS > 32 {
        let too_long = (u32::MAX as u64 + 1) as usize;
        assert!(!can_assemble(too_long, &Vec::new()));
        assert!(!can_assemble(usize::MAX, &vec![level(&[1], 1)]));
    }
}

#[test]
fn compressed_level_is_a_zstd_frame_of_the_raw_bytes() {
    let raw = raw_level(4096, 3);
    let compressed = compress_level(&raw, 3).unwrap();
    assert_eq!(compressed.uncompressed_byte_length, 4096);
    assert_ne!(compressed.data, raw);
    assert!(compressed.data.len() < raw.len());
    assert_eq!(&compressed.data[..4], &[0x28, 0xB5, 0x2F, 0xFD]);
    assert_eq!(zstd::decode_all(&compressed.data[..]).unwrap(), raw);
}

#[test]
fn compression_is_repeatable_and_lossless() {
    for compression_level in [-5, 0, 1, 3, 19] {
        for len in [0usize, 1, 64, 1000] {
            let raw = raw_level(len, 11);
            let first = compress_level(&raw, compression_level).unwrap();
            let second = compress_level(&raw, compression_level).unwrap();
            assert_eq!(first.data, second.data);
            assert_eq!(first.uncompressed_byte_length, len as u64);
            assert_eq!(zstd::decode_all(&first.data[..]).unwrap(), raw);
        }
    }
}

#[test]
fn levels_are_compressed_one_by_one_in_order() {
    let slices = vec![raw_level(256, 1), raw_level(64, 2), Vec::new()];
    let levels = compress_levels(&slices, 5).unwrap();
    assert_eq!(levels.len(), 3);
    for (compressed, raw) in levels.iter().zip(slices.iter()) {
        assert_eq!(compressed.data, zstd::encode_all(&raw[..], 5).unwrap());
        assert_eq!(compressed.uncompressed_byte_length, raw.len() as u64);
    }
    assert!(compress_levels(&[], 5).unwrap().is_empty());
}

#[test]
fn one_level_container() {
    let registry = sample_registry();
    let raw = raw_level(64, 0);
    let out = encode_ktx2(&registry, &[raw.clone()], 4, 4, 0, 0, false, 37, 3).unwrap();
    let compressed = zstd::encode_all(&raw[..], 3).unwrap();
    let descriptor: Vec<u8> = registry.lookup(37).unwrap().descriptor.to_vec();

    assert_eq!(descriptor.len(), 92);
    assert_eq!(out.len(), 80 + 24 + 92 + compressed.len());
    assert_eq!(&out[..12], &MAGIC);
    assert_eq!(u32_at(&out, 12), 37);
    assert_eq!(u32_at(&out, 16), 1);
    assert_eq!(u32_at(&out, 20), 4);
    assert_eq!(u32_at(&out, 24), 4);
    assert_eq!(u32_at(&out, 28), 0);
    assert_eq!(u32_at(&out, 32), 0);
    assert_eq!(u32_at(&out, 36), 1);
    assert_eq!(u32_at(&out, 40), 1);
    assert_eq!(u32_at(&out, 44), 2);
    assert_eq!(u32_at(&out, 48), 104);
    assert_eq!(u32_at(&out, 52), 92);
    assert_eq!(&out[56..80], &[0u8; 24]);
    assert_eq!(u64_at(&out, 80), 80 + 24 + 92);
    assert_eq!(u64_at(&out, 88), compressed.len() as u64);
    assert_eq!(u64_at(&out, 96), 64);
    assert_eq!(&out[104..196], &descriptor[..]);
    assert_eq!(&out[196..], &compressed[..]);
    assert_eq!(zstd::decode_all(&out[196..]).unwrap(), raw);
}

#[test]
fn one_level_container_with_a_descriptor_that_needs_padding() {
    let registry = sample_registry();
    let raw = raw_level(64, 0);
    let out = encode_ktx2(&registry, &[raw.clone()], 4, 4, 0, 0, false, 9, 3).unwrap();
    let compressed = zstd::encode_all(&raw[..], 3).unwrap();
    assert_eq!(out.len(), 80 + 24 + 8 + compressed.len());
    assert_eq!(u32_at(&out, 16), 4);
    assert_eq!(u32_at(&out, 40), 1);
    assert_eq!(u32_at(&out, 36), 1);
    assert_eq!(u32_at(&out, 48), 104);
    assert_eq!(u32_at(&out, 52), 5);
    assert_eq!(u64_at(&out, 80), 80 + 24 + 8);
    assert_eq!(&out[104..112], &[1, 2, 3, 4, 5, 0, 0, 0]);
    assert_eq!(&out[112..], &compressed[..]);
}

#[test]
fn unsupported_format_gives_an_error_and_no_bytes() {
    let registry = sample_registry();
    let slices = vec![raw_level(64, 0)];
    for code in [0u32, 1, 36, 38, 1000, u32::MAX] {
        let out = encode_ktx2(&registry, &slices, 4, 4, 0, 0, false, code, 3);
        assert_eq!(out, Err(EncodeError::UnsupportedFormat));
    }
}

#[test]
fn cubemap_changes_the_face_count_and_nothing_else() {
    let registry = sample_registry();
    let slices = vec![raw_level(6 * 64, 5), raw_level(6 * 16, 6)];
    let flat = encode_ktx2(&registry, &slices, 4, 4, 0, 0, false, 37, 3).unwrap();
    let cube = encode_ktx2(&registry, &slices, 4, 4, 0, 0, true, 37, 3).unwrap();
    assert_eq!(u32_at(&flat, 36), 1);
    assert_eq!(u32_at(&cube, 36), 6);
    assert_eq!(flat.len(), cube.len());
    assert_eq!(&flat[..36], &cube[..36]);
    assert_eq!(&flat[40..], &cube[40..]);
}

#[test]
fn header_read_back_gives_what_was_put_in() {
    let registry = sample_registry();
    let slices = vec![raw_level(1024, 1), raw_level(256, 2), raw_level(64, 3)];
    let out = encode_ktx2(&registry, &slices, 16, 8, 2, 5, true, 37, 7).unwrap();
    let header_bytes: [u8; 80] = out[..80].try_into().unwrap();
    let header = ktx2::Header::from_bytes(&header_bytes).unwrap();
    assert_eq!(header.format, Some(ktx2::Format::R8G8B8A8_UNORM));
    assert_eq!(header.type_size, 1);
    assert_eq!(header.pixel_width, 16);
    assert_eq!(header.pixel_height, 8);
    assert_eq!(header.pixel_depth, 2);
    assert_eq!(header.layer_count, 5);
    assert_eq!(header.face_count, 6);
    assert_eq!(header.level_count, 3);
    assert_eq!(header.supercompression_scheme, Some(ktx2::SupercompressionScheme::Zstandard));
    assert_eq!(header.index.dfd_byte_offset, 80 + 24 * 3);
    assert_eq!(header.index.dfd_byte_length, 92);
    assert_eq!(header.index.kvd_byte_offset, 0);
    assert_eq!(header.index.kvd_byte_length, 0);
    assert_eq!(header.index.sgd_byte_offset, 0);
    assert_eq!(header.index.sgd_byte_length, 0);
}

#[test]
fn levels_lie_where_the_index_says() {
    let registry = sample_registry();
    let slices = vec![raw_level(1024, 1), raw_level(256, 2), Vec::new(), raw_level(64, 3)];
    let out = encode_ktx2(&registry, &slices, 16, 16, 0, 0, false, 9, 1).unwrap();
    let mut expected_offset = (80 + 24 * 4 + 8) as u64;
    for (i, raw) in slices.iter().enumerate() {
        let record_bytes: [u8; 24] = out[80 + 24 * i..80 + 24 * i + 24].try_into().unwrap();
        let record = ktx2::LevelIndex::from_bytes(&record_bytes);
        assert_eq!(record.byte_offset, expected_offset);
        assert_eq!(record.uncompressed_byte_length, raw.len() as u64);
        let start = record.byte_offset as usize;
        let end = start + record.byte_length as usize;
        assert_eq!(&out[start..end], &zstd::encode_all(&raw[..], 1).unwrap()[..]);
        assert_eq!(&zstd::decode_all(&out[start..end]).unwrap(), raw);
        expected_offset += record.byte_length;
    }
    assert_eq!(out.len() as u64, expected_offset);
}

#[test]
fn container_without_levels_is_header_and_descriptor() {
    let registry = sample_registry();
    let out = encode_ktx2(&registry, &[], 4, 4, 0, 0, false, 9, 3).unwrap();
    assert_eq!(out.len(), 88);
    assert_eq!(u32_at(&out, 40), 0);
    assert_eq!(u32_at(&out, 48), 80);
    assert_eq!(&out[80..], &[1, 2, 3, 4, 5, 0, 0, 0]);
}

#[test]
fn encoding_twice_gives_the_same_bytes() {
    let registry = sample_registry();
    let slices = vec![raw_level(512, 9), raw_level(128, 8)];
    let first = encode_ktx2(&registry, &slices, 8, 8, 0, 0, false, 37, 3).unwrap();
    let second = encode_ktx2(&registry, &slices, 8, 8, 0, 0, false, 37, 3).unwrap();
    assert_eq!(first, second);
}

#[test]
fn compression_level_is_handed_to_the_compressor() {
    let registry = sample_registry();
    let raw: Vec<u8> = (0..20_000u32).map(|i| ((i * i) % 251) as u8).collect();
    let fast = encode_ktx2(&registry, &[raw.clone()], 8, 8, 0, 0, false, 37, 1).unwrap();
    let slow = encode_ktx2(&registry, &[raw.clone()], 8, 8, 0, 0, false, 37, 19).unwrap();
    assert_eq!(&fast[196..], &zstd::encode_all(&raw[..], 1).unwrap()[..]);
    assert_eq!(&slow[196..], &zstd::encode_all(&raw[..], 19).unwrap()[..]);
}

#[test]
fn compression_levels_outside_the_usual_range_are_accepted() {
    let raw = raw_level(300, 4);
    for compression_level in [i32::MIN, -1_000_000, 23, 1_000_000, i32::MAX] {
        let compressed = compress_level(&raw, compression_level).unwrap();
        assert_eq!(compressed.data, zstd::encode_all(&raw[..], compression_level).unwrap());
        assert_eq!(zstd::decode_all(&compressed.data[..]).unwrap(), raw);
    }
}
