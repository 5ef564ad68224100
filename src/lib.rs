//! A fixed 64-byte container header for a gzip-compressed image, with
//! framing of the payload that follows it, a SHA-256 integrity check and
//! decompression.
mod checks;
mod header;
mod image;
mod laws;
mod le;

pub use checks::{gunzip_of, sha256_of};
pub use header::{
    decodes_as, header_error, magic_seq, BzError, BzImageHeader, HEADER_SIZE, MAGIC, VERSION,
};
pub use le::{le32, le32_value, le64, le64_value, u32_from_le, u32_to_le, u64_from_le, u64_to_le};
pub use image::{declared_len, is_header_for, write_payload};
pub use laws::{flip_bit, image_bytes, lemma_decode_after_encode, lemma_payload_bit_flip, lemma_round_trip};
