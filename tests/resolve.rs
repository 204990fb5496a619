use rifx::chunk::ChunkVariant;
use rifx::frame::{
    read_imap, read_mmap, read_rifx, ReadChunkError, ReadChunks, UnexpectedChunkError,
};
use rifx::movie::{lookup_mmap, Movie, ReadMovieError};
use rifx::value::{ByteOrder, ReadStringError, Reader};

fn tag(le: bool, t: &[u8; 4]) -> Vec<u8> {
    if le {
        vec![t[3], t[2], t[1], t[0]]
    } else {
        t.to_vec()
    }
}

fn u32b(le: bool, v: u32) -> Vec<u8> {
    if le {
        v.to_le_bytes().to_vec()
    } else {
        v.to_be_bytes().to_vec()
    }
}

fn u16b(le: bool, v: u16) -> Vec<u8> {
    if le {
        v.to_le_bytes().to_vec()
    } else {
        v.to_be_bytes().to_vec()
    }
}

fn header(le: bool, t: &[u8; 4], len: u32) -> Vec<u8> {
    let mut out = tag(le, t);
    out.extend(u32b(le, len));
    out
}

/// A memory map payload with the given (tag, length, offset) entries.
fn mmap_payload(le: bool, entries: &[(&[u8; 4], u32, u32)]) -> Vec<u8> {
    let mut p = Vec::new();
    p.extend(u16b(le, 0x18));
    p.extend(u16b(le, 0x14));
    p.extend(u32b(le, entries.len() as u32 + 3));
    p.extend(u32b(le, entries.len() as u32));
    p.extend(u32b(le, 0xffff_ffff));
    p.extend(u32b(le, 0));
    p.extend(u32b(le, 0xffff_fffe));
    for (t, len, off) in entries {
        p.extend(tag(le, t));
        p.extend(u32b(le, *len));
        p.extend(u32b(le, *off));
        p.extend(u16b(le, 0));
        p.extend(u16b(le, 0));
        p.extend(u32b(le, 0));
    }
    p
}

/// meta (codec, declared length) + imap at 12 pointing at 28 + mmap at 28
/// with the given entries; returns the buffer, entries' payloads go after.
fn container(le: bool, codec: &[u8; 4], entries: &[(&[u8; 4], u32, u32)]) -> Vec<u8> {
    let mut b = header(le, b"RIFX", 1024);
    b.extend(tag(le, codec));
    b.extend(header(le, b"imap", 8));
    b.extend(u32b(le, 1));
    b.extend(u32b(le, 28));
    let p = mmap_payload(le, entries);
    b.extend(header(le, b"mmap", p.len() as u32));
    b.extend(p);
    b
}

fn end_to_end(le: bool) -> Movie {
    // mmap ends at 28 + 8 + 24 + 20 = 80
    let mut b = container(le, b"MV93", &[(b"test", 4, 80)]);
    assert_eq!(b.len(), 80);
    b.extend(header(le, b"test", 4));
    b.extend([1u8, 2, 3, 4]);
    Movie::read(&b).unwrap()
}

#[test]
fn end_to_end_big_endian() {
    let m = end_to_end(false);
    assert_eq!(m.order, ByteOrder::BigEndian);
    assert_eq!(m.chunks.len(), 1);
    let c = m.chunks.get(&0).unwrap();
    assert_eq!(c.fourcc, "test");
    assert!(matches!(c.variant, ChunkVariant::Unimplemented));
}

#[test]
fn end_to_end_little_endian() {
    let m = end_to_end(true);
    assert_eq!(m.order, ByteOrder::LittleEndian);
    assert_eq!(m.chunks.len(), 1);
    let c = m.chunks.get(&0).unwrap();
    assert_eq!(c.fourcc, "test");
    assert!(matches!(c.variant, ChunkVariant::Unimplemented));
}

#[test]
fn marker_selects_byte_order() {
    let be = container(false, b"MV93", &[]);
    assert_eq!(&be[0..4], &[0x52, 0x49, 0x46, 0x58]);
    assert_eq!(Movie::read(&be).unwrap().order, ByteOrder::BigEndian);
    let le = container(true, b"MV93", &[]);
    assert_eq!(&le[0..4], &[0x58, 0x46, 0x49, 0x52]);
    assert_eq!(Movie::read(&le).unwrap().order, ByteOrder::LittleEndian);
}

#[test]
fn no_used_slots_gives_empty_registry() {
    let m = Movie::read(&container(false, b"MV93", &[])).unwrap();
    assert!(m.chunks.is_empty());
}

#[test]
fn unknown_marker_is_invalid_header() {
    let mut b = container(false, b"MV93", &[]);
    b[0] = b'Q';
    assert!(matches!(Movie::read(&b), Err(ReadMovieError::InvalidHeader)));
    assert!(matches!(Movie::read(&[0x52, 0x49]), Err(ReadMovieError::InvalidHeader)));
    assert!(matches!(Movie::read(&[]), Err(ReadMovieError::InvalidHeader)));
}

#[test]
fn other_codec_is_unsupported_and_stops() {
    // nothing follows the meta chunk: the initial map is never read
    let mut b = header(false, b"RIFX", 1024);
    b.extend(b"MV95");
    match Movie::read(&b) {
        Err(ReadMovieError::UnsupportedCodec(c)) => assert_eq!(c, "MV95"),
        _ => panic!("expected UnsupportedCodec"),
    }
    let mut b = header(true, b"RIFX", 12);
    b.extend(tag(true, b"APPL"));
    match Movie::read(&b) {
        Err(ReadMovieError::UnsupportedCodec(c)) => assert_eq!(c, "APPL"),
        _ => panic!("expected UnsupportedCodec"),
    }
}

#[test]
fn meta_payload_is_four_bytes_whatever_declared() {
    let mut b = header(false, b"RIFX", 1024);
    b.extend(b"MV93");
    b.extend(header(false, b"imap", 0));
    let mut rdr = Reader::new(&b, ByteOrder::BigEndian);
    let c = rdr.read_chunk("RIFX".to_string(), None).unwrap();
    assert_eq!(rdr.pos, 12);
    assert_eq!(c.fourcc, "RIFX");
    match c.variant {
        ChunkVariant::Meta(m) => assert_eq!(m.codec, "MV93"),
        _ => panic!("expected Meta"),
    }
}

#[test]
fn free_and_junk_slots_are_skipped() {
    // the free and junk slots point at garbage offsets that are never read
    let mut b = container(
        false,
        b"MV93",
        &[(b"free", 9, 9999), (b"junk", 3, 5), (b"test", 2, 120)],
    );
    assert_eq!(b.len(), 120);
    b.extend(header(false, b"test", 2));
    b.extend([7u8, 7]);
    let m = Movie::read(&b).unwrap();
    assert_eq!(m.chunks.len(), 1);
    assert!(m.chunks.get(&0).is_none());
    assert!(m.chunks.get(&1).is_none());
    assert_eq!(m.chunks.get(&2).unwrap().fourcc, "test");
}

#[test]
fn slots_are_keyed_by_index_and_tags_repeat() {
    let mut b = container(false, b"MV93", &[(b"test", 0, 120), (b"free", 0, 0), (b"test", 1, 128)]);
    b.extend(header(false, b"test", 0));
    b.extend(header(false, b"test", 1));
    b.push(0);
    let m = Movie::read(&b).unwrap();
    assert_eq!(m.chunks.len(), 2);
    assert!(m.chunks.contains_key(&0));
    assert!(m.chunks.contains_key(&2));
}

#[test]
fn slot_mismatch_is_unexpected_chunk_at_offset() {
    let mut b = container(false, b"MV93", &[(b"test", 4, 80)]);
    b.extend(header(false, b"tesu", 4));
    b.extend([0u8; 4]);
    match Movie::read(&b) {
        Err(ReadMovieError::ReadChunkError(ReadChunkError::UnexpectedChunk(
            UnexpectedChunkError::KnownLength(off, et, el, t, l),
        ))) => {
            assert_eq!(off, 80);
            assert_eq!(et, "test");
            assert_eq!(el, 4);
            assert_eq!(t, "tesu");
            assert_eq!(l, 4);
        }
        _ => panic!("expected UnexpectedChunk"),
    }
    let mut b = container(false, b"MV93", &[(b"test", 4, 80)]);
    b.extend(header(false, b"test", 5));
    b.extend([0u8; 5]);
    match Movie::read(&b) {
        Err(ReadMovieError::ReadChunkError(ReadChunkError::UnexpectedChunk(
            UnexpectedChunkError::KnownLength(off, _, el, _, l),
        ))) => {
            assert_eq!(off, 80);
            assert_eq!(el, 4);
            assert_eq!(l, 5);
        }
        _ => panic!("expected UnexpectedChunk"),
    }
}

#[test]
fn wrong_bootstrap_tag_is_unexpected_of_unknown_length() {
    let mut b = header(false, b"RIFX", 0);
    b.extend(b"MV93");
    b.extend(header(false, b"mmap", 0));
    match Movie::read(&b) {
        Err(ReadMovieError::ReadChunkError(ReadChunkError::UnexpectedChunk(
            UnexpectedChunkError::UnknownLength(off, et, t, l),
        ))) => {
            assert_eq!(off, 12);
            assert_eq!(et, "imap");
            assert_eq!(t, "mmap");
            assert_eq!(l, 0);
        }
        _ => panic!("expected UnexpectedChunk"),
    }
}

#[test]
fn truncated_buffers_fail_with_truncated_input() {
    let full = end_to_end_bytes();
    for cut in 4..full.len() {
        let r = Movie::read(&full[..cut]);
        match r {
            Err(ReadMovieError::ReadChunkError(ReadChunkError::TruncatedInput))
            | Err(ReadMovieError::ReadChunkError(ReadChunkError::ReadStringError(
                ReadStringError::TruncatedInput,
            ))) => {}
            _ => panic!("cut at {} did not fail with TruncatedInput", cut),
        }
    }
    assert!(Movie::read(&full).is_ok());
}

fn end_to_end_bytes() -> Vec<u8> {
    let mut b = container(false, b"MV93", &[(b"test", 4, 80)]);
    b.extend(header(false, b"test", 4));
    b.extend([1u8, 2, 3, 4]);
    b
}

#[test]
fn payload_past_end_is_truncated() {
    let b = header(false, b"abcd", 10);
    let mut rdr = Reader::new(&b, ByteOrder::BigEndian);
    assert!(matches!(
        rdr.read_chunk("abcd".to_string(), Some(10)),
        Err(ReadChunkError::TruncatedInput)
    ));
}

#[test]
fn imap_with_no_entries_fails() {
    let mut b = header(false, b"RIFX", 0);
    b.extend(b"MV93");
    b.extend(header(false, b"imap", 4));
    b.extend(u32b(false, 0));
    assert!(matches!(
        Movie::read(&b),
        Err(ReadMovieError::ReadChunkError(ReadChunkError::TruncatedInput))
    ));
}

#[test]
fn bad_tag_bytes_are_encoding_errors() {
    let mut b = vec![0xffu8, 0xff, 0xff, 0xff];
    b.extend(u32b(false, 0));
    let mut rdr = Reader::new(&b, ByteOrder::BigEndian);
    assert!(matches!(
        rdr.read_chunk("RIFX".to_string(), None),
        Err(ReadChunkError::ReadStringError(ReadStringError::EncodingError))
    ));
}

#[test]
fn initial_map_payload_decodes() {
    let mut p = u32b(true, 2);
    p.extend(u32b(true, 0x2C));
    p.extend(u32b(true, 7));
    match read_imap(&p, ByteOrder::LittleEndian) {
        Ok(ChunkVariant::InitialMap(m)) => {
            assert_eq!(m.entry_count, 2);
            assert_eq!(m.entries, vec![0x2C, 7]);
        }
        _ => panic!("expected InitialMap"),
    }
    assert!(matches!(
        read_imap(&p[..8], ByteOrder::LittleEndian),
        Err(ReadChunkError::TruncatedInput)
    ));
}

#[test]
fn memory_map_payload_decodes() {
    let p = mmap_payload(false, &[(b"KEY*", 5, 300)]);
    match read_mmap(&p, ByteOrder::BigEndian) {
        Ok(ChunkVariant::MemoryMap(m)) => {
            assert_eq!(m.unknown0, 0x18);
            assert_eq!(m.unknown1, 0x14);
            assert_eq!(m.chunk_count_max, 4);
            assert_eq!(m.chunk_count_used, 1);
            assert_eq!(m.junk_pointer, -1);
            assert_eq!(m.unknown2, 0);
            assert_eq!(m.free_pointer, -2);
            assert_eq!(m.entries.len(), 1);
            assert_eq!(m.entries[0].fourcc, "KEY*");
            assert_eq!(m.entries[0].length, 5);
            assert_eq!(m.entries[0].offset, 300);
        }
        _ => panic!("expected MemoryMap"),
    }
    assert!(matches!(
        read_mmap(&p[..30], ByteOrder::BigEndian),
        Err(ReadChunkError::TruncatedInput)
    ));
    assert!(matches!(
        read_mmap(&p[..26], ByteOrder::BigEndian),
        Err(ReadChunkError::ReadStringError(ReadStringError::TruncatedInput))
    ));
}

#[test]
fn meta_payload_decodes() {
    match read_rifx(&[b'3', b'9', b'V', b'M'], ByteOrder::LittleEndian) {
        Ok(ChunkVariant::Meta(m)) => assert_eq!(m.codec, "MV93"),
        _ => panic!("expected Meta"),
    }
    assert!(matches!(
        read_rifx(&[1, 2], ByteOrder::LittleEndian),
        Err(ReadChunkError::ReadStringError(ReadStringError::TruncatedInput))
    ));
}

#[test]
fn used_slots_above_maximum_are_rejected() {
    let mut p = mmap_payload(false, &[(b"free", 0, 0), (b"free", 0, 0)]);
    // chunk_count_max := 1, below the two used slots
    p[4..8].copy_from_slice(&1u32.to_be_bytes());
    assert!(matches!(
        read_mmap(&p, ByteOrder::BigEndian),
        Err(ReadChunkError::ChunkCountExceeded)
    ));
    p[4..8].copy_from_slice(&2u32.to_be_bytes());
    match read_mmap(&p, ByteOrder::BigEndian) {
        Ok(ChunkVariant::MemoryMap(m)) => {
            assert_eq!(m.chunk_count_max, 2);
            assert_eq!(m.chunk_count_used, 2);
        }
        _ => panic!("expected MemoryMap"),
    }
    let mut b = container(true, b"MV93", &[(b"free", 0, 0)]);
    // the memory map payload starts at 36; chunk_count_max is at 40
    b[40..44].copy_from_slice(&0u32.to_le_bytes());
    assert!(matches!(
        Movie::read(&b),
        Err(ReadMovieError::ReadChunkError(ReadChunkError::ChunkCountExceeded))
    ));
}

#[test]
fn lookup_leaves_cursor_after_memory_map() {
    let b = end_to_end_bytes();
    let mut rdr = Reader::new(&b, ByteOrder::BigEndian);
    rdr.pos = 50;
    let c = lookup_mmap(&mut rdr).unwrap();
    assert_eq!(c.fourcc, "mmap");
    assert_eq!(rdr.pos, 80);
}

#[test]
fn lookup_stops_after_meta_on_other_codec() {
    let mut b = header(false, b"RIFX", 1024);
    b.extend(b"MV95");
    b.extend([0xffu8; 20]);
    let mut rdr = Reader::new(&b, ByteOrder::BigEndian);
    match lookup_mmap(&mut rdr) {
        Err(ReadMovieError::UnsupportedCodec(c)) => assert_eq!(c, "MV95"),
        _ => panic!("expected UnsupportedCodec"),
    }
    assert_eq!(rdr.pos, 12);
}

#[test]
fn meta_declared_length_does_not_change_the_result() {
    let base = end_to_end_bytes();
    for declared in [0u32, 4, 12, 1024, u32::MAX] {
        let mut b = base.clone();
        b[4..8].copy_from_slice(&declared.to_be_bytes());
        let m = Movie::read(&b).unwrap();
        assert_eq!(m.chunks.len(), 1);
        assert_eq!(m.chunks.get(&0).unwrap().fourcc, "test");
        let mut rdr = Reader::new(&b, ByteOrder::BigEndian);
        assert_eq!(lookup_mmap(&mut rdr).unwrap().fourcc, "mmap");
        assert_eq!(rdr.pos, 80);
    }
}
