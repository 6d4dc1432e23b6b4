//! A content-addressable store of OCI image blobs and the builder of its
//! compressed layers: the rules of the on-disk layout, the digests under which
//! blobs are published, and the pipeline that hashes a layer twice in one pass.

pub mod text;
pub mod hex;
pub mod digest;
pub mod gzip;
pub mod blob;
pub mod layer;
pub mod layout;
pub mod repo;
pub mod base;
pub mod resolve;
