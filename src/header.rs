//! The 64-byte header: its layout, encoding and decoding.
use vstd::prelude::*;

use crate::le::{
    le32, le32_value, le64, le64_value, u32_from_le, u32_to_le, u64_from_le, u64_to_le,
};

verus! {

/// The four ASCII bytes `DMNZ` that open every header.
pub const MAGIC: [u8; 4] = [68u8, 77u8, 78u8, 90u8];

/// The current version of the header layout.
pub const VERSION: u32 = 1;

/// The length in bytes of an encoded header.
pub const HEADER_SIZE: usize = 64;

/// The header that precedes a compressed payload.
///
/// Encoded, its fields follow one another in this order with no padding,
/// integers little-endian: magic at 0, version at 4, reserved1 at 8,
/// uncompressed_size at 12, compressed_size at 20, checksum at 28 and
/// reserved2 at 60.
#[derive(Clone, Copy, Debug, PartialEq, Eq)]
pub struct BzImageHeader {
    pub magic: [u8; 4],
    pub version: u32,
    pub reserved1: u32,
    pub uncompressed_size: u64,
    pub compressed_size: u64,
    /// SHA-256 digest of the compressed payload.
    pub checksum: [u8; 32],
    pub reserved2: u32,
}

/// Why reading or unpacking an image failed.
#[derive(Clone, Copy, Debug, PartialEq, Eq, Structural)]
pub enum BzError {
    /// The first four bytes are not `DMNZ`.
    InvalidMagic,
    /// The stream ends before the header is complete.
    Truncated,
    /// The stream ends before `compressed_size` payload bytes.
    TruncatedPayload,
    /// The payload is not a well-formed gzip stream.
    DecompressionFailure,
    /// The underlying stream reported an error.
    IoFailure,
}

/// The magic as a sequence.
pub open spec fn magic_seq() -> Seq<u8> {
    seq![68u8, 77u8, 78u8, 90u8]
}

impl BzImageHeader {
    /// The 64 bytes that encode this header.
    pub open spec fn spec_encode(self) -> Seq<u8> {
        self.magic@ + le32(self.version) + le32(self.reserved1) + le64(self.uncompressed_size)
            + le64(self.compressed_size) + self.checksum@ + le32(self.reserved2)
    }
}

/// Why the header at the start of `b` cannot be decoded, if it cannot: a
/// stream too short to hold the magic is truncated, a wrong magic is
/// refused whatever follows it, and a right one must be followed by the
/// rest of the 64 bytes.
pub open spec fn header_error(b: Seq<u8>) -> Option<BzError> {
    if b.len() < 4 {
        Some(BzError::Truncated)
    } else if b.subrange(0, 4) != magic_seq() {
        Some(BzError::InvalidMagic)
    } else if b.len() < 64 {
        Some(BzError::Truncated)
    } else {
        None
    }
}

/// `h` holds the fields laid out in the first 64 bytes of `b`.
pub open spec fn decodes_as(b: Seq<u8>, h: BzImageHeader) -> bool {
    &&& b.len() >= 64
    &&& h.magic@ == b.subrange(0, 4)
    &&& h.version == le32_value(b.subrange(4, 8))
    &&& h.reserved1 == le32_value(b.subrange(8, 12))
    &&& h.uncompressed_size == le64_value(b.subrange(12, 20))
    &&& h.compressed_size == le64_value(b.subrange(20, 28))
    &&& h.checksum@ == b.subrange(28, 60)
    &&& h.reserved2 == le32_value(b.subrange(60, 64))
}

impl BzImageHeader {
    /// The length of an encoded header.
    pub fn size() -> (r: usize)
        ensures
            r == HEADER_SIZE,
    {
        HEADER_SIZE
    }

    /// A copy of the magic bytes.
    pub fn magic_copy(&self) -> (r: [u8; 4])
        ensures
            r == self.magic,
    {
        self.magic
    }

    /// A copy of the stored digest.
    pub fn checksum_copy(&self) -> (r: [u8; 32])
        ensures
            r == self.checksum,
    {
        self.checksum
    }

    /// Appends the 64-byte encoding of this header to `out`.
    pub fn write_to(&self, out: &mut Vec<u8>)
        ensures
            final(out)@ == old(out)@ + self.spec_encode(),
            final(out)@.len() == old(out)@.len() + HEADER_SIZE,
    {
        let mut i: usize = 0;
        while i < 4
            invariant
                0 <= i <= 4,
                out@ == old(out)@ + self.magic@.subrange(0, i as int),
            decreases 4 - i,
        {
            out.push(self.magic[i]);
            i = i + 1;
            assert(out@ =~= old(out)@ + self.magic@.subrange(0, i as int));
        }
        assert(self.magic@.subrange(0, 4) =~= self.magic@);
        u32_to_le(self.version, out);
        u32_to_le(self.reserved1, out);
        u64_to_le(self.uncompressed_size, out);
        u64_to_le(self.compressed_size, out);
        let ghost before = out@;
        let mut j: usize = 0;
        while j < 32
            invariant
                0 <= j <= 32,
                out@ == before + self.checksum@.subrange(0, j as int),
            decreases 32 - j,
        {
            out.push(self.checksum[j]);
            j = j + 1;
            assert(out@ =~= before + self.checksum@.subrange(0, j as int));
        }
        assert(self.checksum@.subrange(0, 32) =~= self.checksum@);
        u32_to_le(self.reserved2, out);
        assert(out@ =~= old(out)@ + self.spec_encode());
    }

    /// Decodes the header at the start of `data`.
    ///
    /// Fails with `Truncated` where `data` cannot hold the magic, with
    /// `InvalidMagic` where the magic is wrong, and with `Truncated` where the
    /// right magic is followed by fewer than 60 bytes. The version is not
    /// compared with `VERSION`.
    pub fn read_from(data: &[u8]) -> (r: Result<BzImageHeader, BzError>)
        ensures
            match r {
                Ok(h) => header_error(data@) is None && decodes_as(data@, h),
                Err(e) => header_error(data@) == Some(e),
            },
    {
        if data.len() < 4 {
            return Err(BzError::Truncated);
        }
        let magic: [u8; 4] = [data[0], data[1], data[2], data[3]];
        assert(magic@ =~= data@.subrange(0, 4));
        if !(magic[0] == MAGIC[0] && magic[1] == MAGIC[1] && magic[2] == MAGIC[2] && magic[3]
            == MAGIC[3]) {
            assert(data@.subrange(0, 4) != magic_seq()) by {
                if data@.subrange(0, 4) == magic_seq() {
                    assert(magic@[0] == magic_seq()[0]);
                    assert(magic@[1] == magic_seq()[1]);
                    assert(magic@[2] == magic_seq()[2]);
                    assert(magic@[3] == magic_seq()[3]);
                }
            }
            return Err(BzError::InvalidMagic);
        }
        assert(magic@ =~= magic_seq());
        if data.len() < HEADER_SIZE {
            return Err(BzError::Truncated);
        }
        let version = u32_from_le(data, 4);
        let reserved1 = u32_from_le(data, 8);
        let uncompressed_size = u64_from_le(data, 12);
        let compressed_size = u64_from_le(data, 20);
        let mut checksum: [u8; 32] = [0u8; 32];
        let mut j: usize = 0;
        while j < 32
            invariant
                0 <= j <= 32,
                data@.len() >= 64,
                forall|k: int| 0 <= k < j ==> checksum@[k] == data@[28 + k],
            decreases 32 - j,
        {
            checksum[j] = data[28 + j];
            j = j + 1;
        }
        assert(checksum@ =~= data@.subrange(28, 60));
        let reserved2 = u32_from_le(data, 60);
        Ok(BzImageHeader {
            magic,
            version,
            reserved1,
            uncompressed_size,
            compressed_size,
            checksum,
            reserved2,
        })
    }
}

} // verus!
