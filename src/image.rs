//! The payload that follows a header: framing, integrity check and
//! decompression.
use vstd::prelude::*;

use crate::checks::{gunzip, gunzip_of, sha256, sha256_of};
use crate::header::{decodes_as, header_error, magic_seq, BzError, BzImageHeader, HEADER_SIZE, MAGIC, VERSION};
use crate::le::le64_value;

verus! {

/// The payload length that the header at the start of `b` declares.
pub open spec fn declared_len(b: Seq<u8>) -> int {
    le64_value(b.subrange(20, 28)) as int
}

/// `h` is the header written for a payload of `uncompressed_len` bytes that
/// compresses to `compressed`.
pub open spec fn is_header_for(h: BzImageHeader, uncompressed_len: u64, compressed: Seq<u8>) -> bool {
    &&& h.magic@ == magic_seq()
    &&& h.version == VERSION
    &&& h.reserved1 == 0
    &&& h.uncompressed_size == uncompressed_len
    &&& h.compressed_size == compressed.len()
    &&& h.checksum@ == sha256_of(compressed)
    &&& h.reserved2 == 0
}

/// Appends `compressed` to `out` unchanged; the header is expected to have
/// been written just before.
pub fn write_payload(out: &mut Vec<u8>, compressed: &[u8])
    ensures
        final(out)@ == old(out)@ + compressed@,
{
    let mut i: usize = 0;
    while i < compressed.len()
        invariant
            0 <= i <= compressed@.len(),
            out@ == old(out)@ + compressed@.subrange(0, i as int),
        decreases compressed.len() - i,
    {
        out.push(compressed[i]);
        i = i + 1;
        assert(out@ =~= old(out)@ + compressed@.subrange(0, i as int));
    }
    assert(compressed@.subrange(0, compressed@.len() as int) =~= compressed@);
}

impl BzImageHeader {
    /// The header for a payload of `uncompressed_size` bytes whose gzip
    /// compression is `compressed`: current magic and version, zero reserved
    /// fields, and the SHA-256 digest of `compressed`.
    pub fn for_payload(uncompressed_size: u64, compressed: &[u8]) -> (r: BzImageHeader)
        requires
            compressed@.len() <= u64::MAX,
        ensures
            is_header_for(r, uncompressed_size, compressed@),
    {
        assert(MAGIC@ =~= magic_seq());
        BzImageHeader {
            magic: MAGIC,
            version: VERSION,
            reserved1: 0,
            uncompressed_size,
            compressed_size: compressed.len() as u64,
            checksum: sha256(compressed),
            reserved2: 0,
        }
    }

    /// Reads the `compressed_size` payload bytes at the start of `stream`,
    /// the bytes that follow the header. Fails with `TruncatedPayload` where
    /// `stream` holds fewer.
    pub fn read_payload(stream: &[u8], header: &BzImageHeader) -> (r: Result<Vec<u8>, BzError>)
        ensures
            match r {
                Ok(p) => header.compressed_size <= stream@.len() && p@ == stream@.subrange(
                    0,
                    header.compressed_size as int,
                ),
                Err(e) => header.compressed_size > stream@.len() && e == BzError::TruncatedPayload,
            },
    {
        if header.compressed_size > stream.len() as u64 {
            return Err(BzError::TruncatedPayload);
        }
        let n = header.compressed_size as usize;
        let mut p: Vec<u8> = Vec::with_capacity(n);
        let mut i: usize = 0;
        while i < n
            invariant
                0 <= i <= n,
                n <= stream@.len(),
                p@ == stream@.subrange(0, i as int),
            decreases n - i,
        {
            p.push(stream[i]);
            i = i + 1;
            assert(p@ =~= stream@.subrange(0, i as int));
        }
        Ok(p)
    }

    /// Whether `digest` equals the stored checksum, byte for byte.
    pub fn checksum_matches(&self, digest: &[u8; 32]) -> (r: bool)
        ensures
            r == (digest@ == self.checksum@),
    {
        let mut i: usize = 0;
        while i < 32
            invariant
                0 <= i <= 32,
                forall|k: int| 0 <= k < i ==> digest@[k] == self.checksum@[k],
            decreases 32 - i,
        {
            if digest[i] != self.checksum[i] {
                assert(digest@[i as int] != self.checksum@[i as int]);
                return false;
            }
            i = i + 1;
        }
        assert(digest@ =~= self.checksum@);
        true
    }

    /// Whether the SHA-256 digest of `compressed_data` equals the stored
    /// checksum. A mismatch is reported as `false`, never as an error.
    pub fn validate_checksum(&self, compressed_data: &[u8]) -> (r: bool)
        ensures
            r == (sha256_of(compressed_data@) == self.checksum@),
    {
        let digest = sha256(compressed_data);
        self.checksum_matches(&digest)
    }

    /// Inflates a gzip stream. Fails with `DecompressionFailure` where the
    /// stream is malformed or cut short. The length is not compared with
    /// any header's `uncompressed_size`.
    pub fn decompress_data(compressed: &[u8]) -> (r: Result<Vec<u8>, BzError>)
        ensures
            match r {
                Ok(v) => gunzip_of(compressed@) == Some(v@),
                Err(e) => gunzip_of(compressed@) is None && e == BzError::DecompressionFailure,
            },
    {
        match gunzip(compressed) {
            Some(v) => Ok(v),
            None => Err(BzError::DecompressionFailure),
        }
    }

    /// Decodes the header at the start of `stream` and reads the payload
    /// that follows it. Neither verifies the checksum nor decompresses.
    pub fn read_header_and_payload(stream: &[u8]) -> (r: Result<(BzImageHeader, Vec<u8>), BzError>)
        ensures
            match r {
                Ok((h, p)) => {
                    &&& header_error(stream@) is None
                    &&& decodes_as(stream@, h)
                    &&& HEADER_SIZE + h.compressed_size <= stream@.len()
                    &&& p@ == stream@.subrange(
                        HEADER_SIZE as int,
                        HEADER_SIZE + h.compressed_size,
                    )
                },
                Err(e) => header_error(stream@) == Some(e) || (header_error(stream@) is None
                    && stream@.len() < HEADER_SIZE + declared_len(stream@) && e
                    == BzError::TruncatedPayload),
            },
    {
        let header = match BzImageHeader::read_from(stream) {
            Ok(h) => h,
            Err(e) => return Err(e),
        };
        let rest = vstd::slice::slice_subrange(stream, HEADER_SIZE, stream.len());
        match BzImageHeader::read_payload(rest, &header) {
            Ok(p) => {
                assert(p@ =~= stream@.subrange(
                    HEADER_SIZE as int,
                    HEADER_SIZE + header.compressed_size,
                ));
                Ok((header, p))
            },
            Err(e) => Err(e),
        }
    }
}

} // verus!
