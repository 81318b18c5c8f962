//! Compression of the levels with Zstandard.

use vstd::prelude::*;
use crate::layout::{level_models, CompressedLevel, EncodeError, LevelModel};

verus! {

/// The Zstandard frame that the compressor makes of `raw` at `level`.
pub uninterp spec fn zstd_compressed(raw: Seq<u8>, level: i32) -> Seq<u8>;

/// `std::io::Error`, the error of `zstd::encode_all`. Nothing is read from
/// it: any such error becomes `EncodeError::CompressionFailure`.
#[verifier::external_type_specification]
#[verifier::external_body]
pub struct ExIoError(std::io::Error);

/// Calls `zstd::encode_all` on a cursor over `raw`.
///
/// Trusted: when the call succeeds, what it returns depends on the bytes and
/// the level alone. Nothing is claimed of when it succeeds; like any
/// allocation, the creation of the compressor's context aborts when memory
/// runs out.
#[verifier::external_body]
fn zstd_encode_all(raw: &[u8], level: i32) -> (out: Result<Vec<u8>, std::io::Error>)
    ensures
        out matches Ok(bytes) ==> bytes@ == zstd_compressed(raw@, level),
{
    zstd::encode_all(std::io::Cursor::new(raw), level)
}

/// What compressing `raw` at `level` gives: the frame, and the length that
/// `raw` had.
pub open spec fn compressed_model(raw: Seq<u8>, level: i32) -> LevelModel {
    LevelModel { data: zstd_compressed(raw, level), uncompressed_byte_length: raw.len() as u64 }
}

/// The bytes of each level, in order.
pub open spec fn raw_levels(slices: Seq<Vec<u8>>) -> Seq<Seq<u8>> {
    Seq::new(slices.len(), |i: int| slices[i]@)
}

/// What compressing each of `raw` at `level` gives, in the same order.
pub open spec fn compressed_models(raw: Seq<Seq<u8>>, level: i32) -> Seq<LevelModel> {
    Seq::new(raw.len(), |i: int| compressed_model(raw[i], level))
}

/// Compresses one level. The compressor decides whether this succeeds; where
/// it does, the result is the frame for these bytes and this level, whenever
/// and wherever it is asked.
pub fn compress_level(raw: &[u8], level: i32) -> (out: Result<CompressedLevel, EncodeError>)
    ensures
        out matches Ok(compressed) ==> compressed@ == compressed_model(raw@, level),
        out matches Err(e) ==> e == EncodeError::CompressionFailure,
{
    match zstd_encode_all(raw, level) {
        Ok(data) => Ok(CompressedLevel { data, uncompressed_byte_length: raw.len() as u64 }),
        Err(_) => Err(EncodeError::CompressionFailure),
    }
}

/// Two compressions of the same bytes at the same level give the same
/// compressed level.
pub proof fn lemma_compression_repeats(
    a: CompressedLevel,
    b: CompressedLevel,
    raw: Seq<u8>,
    level: i32,
)
    requires
        a@ == compressed_model(raw, level),
        b@ == compressed_model(raw, level),
    ensures
        a.data@ == b.data@,
        a.uncompressed_byte_length == b.uncompressed_byte_length,
{
}

/// Compresses every level, in order, and stops at the first failure.
pub fn compress_levels(slices: &[Vec<u8>], level: i32) -> (out: Result<
    Vec<CompressedLevel>,
    EncodeError,
>)
    ensures
        slices@.len() == 0 ==> out is Ok,
        out matches Ok(levels) ==> level_models(levels@) == compressed_models(
            raw_levels(slices@),
            level,
        ),
        out matches Err(e) ==> e == EncodeError::CompressionFailure,
{
    let mut levels: Vec<CompressedLevel> = Vec::new();
    let mut i: usize = 0;
    while i < slices.len()
        invariant
            i <= slices@.len(),
            levels@.len() == i,
            forall|k: int| 0 <= k < i ==> (#[trigger] levels@[k])@ == compressed_model(slices@[k]@, level),
        decreases slices@.len() - i,
    {
        match compress_level(slices[i].as_slice(), level) {
            Ok(compressed) => {
                levels.push(compressed);
            },
            Err(e) => {
                return Err(e);
            },
        }
        i += 1;
    }
    assert(level_models(levels@) =~= compressed_models(raw_levels(slices@), level));
    Ok(levels)
}

} // verus!
