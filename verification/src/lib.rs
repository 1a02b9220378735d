//! Executable-image introspection over a borrowed byte region.
//!
//! The library parses an image's header chain (DOS header, NT header,
//! optional header, section table, data directories), translates between
//! virtual offsets and file offsets, resolves exported symbols by name,
//! ordinal or XOR-masked name, and extracts embedded resource blobs.
//! It operates identically over raw on-disk bytes and over an image that
//! is already mapped with virtual addressing in effect; a heuristic picks
//! the representation at construction time.
//!
//! Every field read is bounds-checked against the extent of the backing
//! region, and every public operation carries a contract that pins its
//! result to a mathematical description of the image bytes.

pub mod bytes;
pub mod headers;
pub mod sections;
pub mod translate;
pub mod mapped;
pub mod pe;
pub mod export;
pub mod resource;
