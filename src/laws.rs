//! Properties that relate writing a stream to reading it back.
use vstd::prelude::*;

use crate::checks::{gunzip_of, sha256_of};
use crate::header::{decodes_as, header_error, magic_seq, BzImageHeader, HEADER_SIZE};
use crate::image::{declared_len, is_header_for};
use crate::le::{lemma_le32_round_trip, lemma_le64_round_trip};

verus! {

/// The stream written for header `h` and payload `compressed`: the header's
/// 64 bytes, then the payload with nothing between them.
pub open spec fn image_bytes(h: BzImageHeader, compressed: Seq<u8>) -> Seq<u8> {
    h.spec_encode() + compressed
}

/// A stream with one bit of byte `i` flipped; `k` picks the bit.
pub open spec fn flip_bit(s: Seq<u8>, i: int, k: u8) -> Seq<u8> {
    s.update(i, s[i] ^ (1u8 << k))
}

/// A header with the right magic, written at the front of a stream, is
/// decoded back as itself and as nothing else, whatever bytes follow it.
pub proof fn lemma_decode_after_encode(h: BzImageHeader, rest: Seq<u8>)
    requires
        h.magic@ == magic_seq(),
    ensures
        header_error(h.spec_encode() + rest) is None,
        forall|g: BzImageHeader| decodes_as(h.spec_encode() + rest, g) <==> g == h,
        declared_len(h.spec_encode() + rest) == h.compressed_size,
{
    let s = h.spec_encode() + rest;
    lemma_le32_round_trip(h.version);
    lemma_le32_round_trip(h.reserved1);
    lemma_le32_round_trip(h.reserved2);
    lemma_le64_round_trip(h.uncompressed_size);
    lemma_le64_round_trip(h.compressed_size);
    assert(s.subrange(0, 4) =~= h.magic@);
    assert(s.subrange(4, 8) =~= crate::le::le32(h.version));
    assert(s.subrange(8, 12) =~= crate::le::le32(h.reserved1));
    assert(s.subrange(12, 20) =~= crate::le::le64(h.uncompressed_size));
    assert(s.subrange(20, 28) =~= crate::le::le64(h.compressed_size));
    assert(s.subrange(28, 60) =~= h.checksum@);
    assert(s.subrange(60, 64) =~= crate::le::le32(h.reserved2));
    assert(decodes_as(s, h));
    assert forall|g: BzImageHeader| decodes_as(s, g) implies g == h by {
        assert(g.magic =~= h.magic);
        assert(g.checksum =~= h.checksum);
    }
}

/// For any payload and any gzip stream `compressed` that inflates to it, the
/// stream made of the header for the two followed by `compressed` decodes to
/// that header; the payload read after it is `compressed`, its digest equals
/// the stored checksum, and it inflates back to the payload.
pub proof fn lemma_round_trip(payload: Seq<u8>, compressed: Seq<u8>, h: BzImageHeader)
    requires
        gunzip_of(compressed) == Some(payload),
        payload.len() <= u64::MAX,
        is_header_for(h, payload.len() as u64, compressed),
    ensures
        header_error(image_bytes(h, compressed)) is None,
        forall|g: BzImageHeader| decodes_as(image_bytes(h, compressed), g) <==> g == h,
        HEADER_SIZE + h.compressed_size <= image_bytes(h, compressed).len(),
        image_bytes(h, compressed).subrange(
            HEADER_SIZE as int,
            HEADER_SIZE + h.compressed_size,
        ) == compressed,
        sha256_of(
            image_bytes(h, compressed).subrange(HEADER_SIZE as int, HEADER_SIZE + h.compressed_size),
        ) == h.checksum@,
        gunzip_of(
            image_bytes(h, compressed).subrange(HEADER_SIZE as int, HEADER_SIZE + h.compressed_size),
        ) == Some(payload),
{
    lemma_decode_after_encode(h, compressed);
    let s = image_bytes(h, compressed);
    assert(s.subrange(HEADER_SIZE as int, HEADER_SIZE + h.compressed_size) =~= compressed);
}

/// Flipping one bit of a payload byte leaves the header of the stream as it
/// was: it decodes as the same header and declares the same payload length,
/// while the flipped byte differs from the byte it replaced; where it lies
/// within the declared payload, the payload read back differs too.
pub proof fn lemma_payload_bit_flip(s: Seq<u8>, i: int, k: u8)
    requires
        header_error(s) is None,
        HEADER_SIZE <= i < s.len(),
        k < 8,
    ensures
        header_error(flip_bit(s, i, k)) is None,
        forall|g: BzImageHeader| decodes_as(flip_bit(s, i, k), g) == decodes_as(s, g),
        declared_len(flip_bit(s, i, k)) == declared_len(s),
        flip_bit(s, i, k).len() == s.len(),
        flip_bit(s, i, k)[i] != s[i],
        i < HEADER_SIZE + declared_len(s) <= s.len() ==> flip_bit(s, i, k).subrange(
            HEADER_SIZE as int,
            HEADER_SIZE + declared_len(s),
        ) != s.subrange(HEADER_SIZE as int, HEADER_SIZE + declared_len(s)),
{
    let t = flip_bit(s, i, k);
    let x = s[i];
    assert(x ^ (1u8 << k) != x) by (bit_vector)
        requires
            k < 8,
    ;
    assert(t.subrange(0, 4) =~= s.subrange(0, 4));
    assert(t.subrange(4, 8) =~= s.subrange(4, 8));
    assert(t.subrange(8, 12) =~= s.subrange(8, 12));
    assert(t.subrange(12, 20) =~= s.subrange(12, 20));
    assert(t.subrange(20, 28) =~= s.subrange(20, 28));
    assert(t.subrange(28, 60) =~= s.subrange(28, 60));
    assert(t.subrange(60, 64) =~= s.subrange(60, 64));
    if i < HEADER_SIZE + declared_len(s) <= s.len() {
        let n = HEADER_SIZE + declared_len(s);
        assert(t.subrange(HEADER_SIZE as int, n)[i - HEADER_SIZE] != s.subrange(
            HEADER_SIZE as int,
            n,
        )[i - HEADER_SIZE]);
    }
}

} // verus!
