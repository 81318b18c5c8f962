//! Writer for KTX2 texture containers whose mip levels are supercompressed
//! with Zstandard.
//!
//! The byte layout of a container is given by the spec functions of
//! [`layout`]; the executable functions are proved to produce exactly those
//! bytes.

pub mod le_bytes;
pub mod registry;
pub mod layout;
pub mod compress;
pub mod encode;
pub mod theorems;

pub use compress::{compress_level, compress_levels};
pub use encode::{assemble_container, build_level_index, can_assemble, encode_ktx2};
pub use layout::{CompressedLevel, EncodeError, Header, LevelIndexRecord};
pub use registry::{FormatEntry, FormatRegistry};
