use bzimage::{write_payload, BzImageHeader, HEADER_SIZE, MAGIC, VERSION};
use flate2::write::GzEncoder;
use flate2::Compression;
use sha2::{Digest, Sha256};
use std::io::Write;

fn gzip(payload: &[u8]) -> Vec<u8> {
    let mut enc = GzEncoder::new(Vec::new(), Compression::best());
    enc.write_all(payload).unwrap();
    enc.finish().unwrap()
}

fn sha256(data: &[u8]) -> [u8; 32] {
    let mut hasher = Sha256::new();
    hasher.update(data);
    hasher.finalize().into()
}

#[test]
fn write_header_and_payload_roundtrip() {
    let payload = b"unit test payload".to_vec();
    let compressed = gzip(&payload);
    let checksum = sha256(&compressed);

    let header = BzImageHeader {
        magic: MAGIC,
        version: VERSION,
        reserved1: 0,
        uncompressed_size: payload.len() as u64,
        compressed_size: compressed.len() as u64,
        checksum,
        reserved2: 0,
    };

    let mut buf: Vec<u8> = Vec::new();
    header.write_to(&mut buf);
    write_payload(&mut buf, &compressed);

    let (read_header, read_compressed) = BzImageHeader::read_header_and_payload(&buf).unwrap();

    assert_eq!(read_header.magic_copy(), MAGIC);
    assert_eq!(read_compressed.len(), compressed.len());
    assert!(read_header.validate_checksum(&read_compressed));
    let decompressed = BzImageHeader::decompress_data(&read_compressed).unwrap();
    assert_eq!(decompressed, payload);
}

#[test]
fn round_trip_write_read_validate_decompress() {
    let payload = b"hello daemonizer world".to_vec();
    let uncompressed_size = payload.len() as u64;

    let compressed = gzip(&payload);
    let compressed_size = compressed.len() as u64;
    let checksum = sha256(&compressed);

    let header = BzImageHeader {
        magic: MAGIC,
        version: VERSION,
        reserved1: 0,
        uncompressed_size,
        compressed_size,
        checksum,
        reserved2: 0,
    };

    let mut cur: Vec<u8> = Vec::new();
    header.write_to(&mut cur);
    cur.extend_from_slice(&compressed);

    let read_header = BzImageHeader::read_from(&cur).unwrap();

    assert_eq!(read_header.magic_copy(), MAGIC);
    let un: u64 = read_header.uncompressed_size;
    let comp: u64 = read_header.compressed_size;
    assert_eq!(un, uncompressed_size);
    assert_eq!(comp, compressed_size);

    let compressed_read = cur[HEADER_SIZE..].to_vec();
    assert_eq!(compressed_read.len(), compressed_size as usize);

    assert!(read_header.validate_checksum(&compressed_read));

    let decompressed = BzImageHeader::decompress_data(&compressed_read).unwrap();
    assert_eq!(decompressed, payload);
}

#[test]
fn invalid_magic_fails() {
    let mut cur: Vec<u8> = Vec::new();
    cur.extend_from_slice(b"BAD!");
    cur.extend_from_slice(&vec![0u8; 60]);
    let res = BzImageHeader::read_from(&cur);
    assert!(res.is_err());
}

#[test]
fn checksum_mismatch_detected() {
    let payload = b"somedata".to_vec();
    let compressed = gzip(&payload);
    let checksum = sha256(&compressed);

    let header = BzImageHeader {
        magic: MAGIC,
        version: VERSION,
        reserved1: 0,
        uncompressed_size: payload.len() as u64,
        compressed_size: compressed.len() as u64,
        checksum,
        reserved2: 0,
    };

    let mut cur: Vec<u8> = Vec::new();
    header.write_to(&mut cur);
    let mut corrupted = compressed.clone();
    if !corrupted.is_empty() {
        corrupted[0] ^= 0xff;
    }
    cur.extend_from_slice(&corrupted);

    let read_header = BzImageHeader::read_from(&cur).unwrap();
    let compressed_read = cur[HEADER_SIZE..].to_vec();

    assert!(!read_header.validate_checksum(&compressed_read));
}

#[test]
fn header_write_size() {
    let header = BzImageHeader {
        magic: MAGIC,
        version: VERSION,
        reserved1: 0,
        uncompressed_size: 0,
        compressed_size: 0,
        checksum: [0u8; 32],
        reserved2: 0,
    };

    let mut cur: Vec<u8> = Vec::new();
    header.write_to(&mut cur);
    assert_eq!(cur.len(), HEADER_SIZE);
}

#[test]
fn truncated_header_fails() {
    let mut buf = Vec::new();
    buf.extend_from_slice(&MAGIC);
    buf.extend_from_slice(&[0u8; 10]);
    let r = BzImageHeader::read_from(&buf);
    assert!(r.is_err());
}
