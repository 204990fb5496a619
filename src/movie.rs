use vstd::prelude::*;
use vstd::utf8::decode_utf8;

use std::collections::HashMap;

use crate::chunk::{Chunk, ChunkVariant};
use crate::frame::{
    chunk_end, declared_len, header_status, tag_text, chunk_ok, chunk_result, entry_at, imap_count, imap_tag, imap_tag_string,
    lemma_chunk_result_ok, meta_tag, ReadChunks, mmap_tag, mmap_tag_string, mmap_used, payload_at,
    ReadChunkError,
};
use crate::value::{fourcc_bytes, spec_u32, ByteOrder, ReadDirectorValues, Reader};

verus! {

broadcast use vstd::std_specs::hash::group_hash_axioms;

/// A resolved container: its byte order and its live chunks, keyed by
/// memory-map slot index.
#[derive(Debug)]
pub struct Movie {
    pub chunks: HashMap<u32, Chunk>,
    pub order: ByteOrder,
}

/// Why a container could not be resolved.
#[derive(Debug)]
pub enum ReadMovieError {
    /// The leading marker is neither the canonical one nor its reversal.
    InvalidHeader,
    /// The meta chunk names a codec other than the supported one.
    UnsupportedCodec(String),
    /// A chunk could not be read.
    ReadChunkError(ReadChunkError),
}

/// The canonical leading marker, which selects big-endian.
pub open spec fn rifx_marker() -> Seq<u8> {
    seq![0x52u8, 0x49u8, 0x46u8, 0x58u8]
}

/// The reversed leading marker, which selects little-endian.
pub open spec fn xfir_marker() -> Seq<u8> {
    seq![0x58u8, 0x46u8, 0x49u8, 0x52u8]
}

/// The byte order that the leading marker of `d` selects, if any.
pub open spec fn detected_order(d: Seq<u8>) -> Option<ByteOrder> {
    if d.len() >= 4 && d.subrange(0, 4) == rifx_marker() {
        Some(ByteOrder::BigEndian)
    } else if d.len() >= 4 && d.subrange(0, 4) == xfir_marker() {
        Some(ByteOrder::LittleEndian)
    } else {
        None
    }
}

/// The one supported codec.
pub open spec fn supported_codec() -> Seq<char> {
    seq!['M', 'V', '9', '3']
}

/// The tag of a reclaimed slot.
pub open spec fn free_tag() -> Seq<char> {
    seq!['f', 'r', 'e', 'e']
}

/// The tag of a discarded slot.
pub open spec fn junk_tag() -> Seq<char> {
    seq!['j', 'u', 'n', 'k']
}

/// The codec that the meta chunk at offset 0 names.
pub open spec fn codec_of(o: ByteOrder, d: Seq<u8>) -> Seq<char> {
    decode_utf8(fourcc_bytes(o, payload_at(o, d, 0).subrange(0, 4)))
}

/// Where the initial map starts: right after the meta chunk.
pub open spec fn imap_pos(o: ByteOrder, d: Seq<u8>) -> int {
    chunk_end(o, d, 0)
}

/// The number of entries of the initial map.
pub open spec fn imap_entries(o: ByteOrder, d: Seq<u8>) -> u32 {
    imap_count(o, payload_at(o, d, imap_pos(o, d)))
}

/// Where the memory map starts: the first entry of the initial map.
pub open spec fn mmap_pos(o: ByteOrder, d: Seq<u8>) -> int {
    spec_u32(o, payload_at(o, d, imap_pos(o, d)).subrange(4, 8)) as int
}

/// The payload of the memory map.
pub open spec fn mmap_payload(o: ByteOrder, d: Seq<u8>) -> Seq<u8> {
    payload_at(o, d, mmap_pos(o, d))
}

/// The number of used slots of the memory map.
pub open spec fn slot_count(o: ByteOrder, d: Seq<u8>) -> u32 {
    mmap_used(o, mmap_payload(o, d))
}

/// The tag recorded for slot `i`.
pub open spec fn slot_tag(o: ByteOrder, d: Seq<u8>, i: int) -> Seq<char> {
    decode_utf8(fourcc_bytes(o, mmap_payload(o, d).subrange(entry_at(i), entry_at(i) + 4)))
}

/// The length recorded for slot `i`.
pub open spec fn slot_length(o: ByteOrder, d: Seq<u8>, i: int) -> u32 {
    spec_u32(o, mmap_payload(o, d).subrange(entry_at(i) + 4, entry_at(i) + 8))
}

/// The file offset recorded for slot `i`.
pub open spec fn slot_offset(o: ByteOrder, d: Seq<u8>, i: int) -> u32 {
    spec_u32(o, mmap_payload(o, d).subrange(entry_at(i) + 8, entry_at(i) + 12))
}

/// Slot `i` holds a chunk: it is neither free nor junk.
pub open spec fn slot_live(o: ByteOrder, d: Seq<u8>, i: int) -> bool {
    slot_tag(o, d, i) != free_tag() && slot_tag(o, d, i) != junk_tag()
}

/// Slot `i` is free or junk, or its chunk reads as the slot records it.
pub open spec fn slot_ok(o: ByteOrder, d: Seq<u8>, i: int) -> bool {
    slot_live(o, d, i) ==> chunk_ok(
        o,
        d,
        slot_offset(o, d, i) as int,
        slot_tag(o, d, i),
        Some(slot_length(o, d, i)),
    )
}

/// The meta chunk, the codec, the initial map and the memory map all read.
pub open spec fn bootstrap_ok(o: ByteOrder, d: Seq<u8>) -> bool {
    &&& chunk_ok(o, d, 0, meta_tag(), None)
    &&& codec_of(o, d) == supported_codec()
    &&& chunk_ok(o, d, imap_pos(o, d), imap_tag(), None)
    &&& imap_entries(o, d) >= 1
    &&& chunk_ok(o, d, mmap_pos(o, d), mmap_tag(), None)
}

/// `e` is the error of the first bootstrap step that fails.
pub open spec fn bootstrap_failure(e: ReadMovieError, o: ByteOrder, d: Seq<u8>) -> bool {
    if !chunk_ok(o, d, 0, meta_tag(), None) {
        match e {
            ReadMovieError::ReadChunkError(c) => chunk_result(
                Err(c),
                o,
                d,
                0,
                meta_tag(),
                None,
            ),
            _ => false,
        }
    } else if codec_of(o, d) != supported_codec() {
        match e {
            ReadMovieError::UnsupportedCodec(c) => c@ == codec_of(o, d),
            _ => false,
        }
    } else if !chunk_ok(o, d, imap_pos(o, d), imap_tag(), None) {
        match e {
            ReadMovieError::ReadChunkError(c) => chunk_result(
                Err(c),
                o,
                d,
                imap_pos(o, d),
                imap_tag(),
                None,
            ),
            _ => false,
        }
    } else if imap_entries(o, d) == 0 {
        e == ReadMovieError::ReadChunkError(ReadChunkError::TruncatedInput)
    } else {
        match e {
            ReadMovieError::ReadChunkError(c) => chunk_result(
                Err(c),
                o,
                d,
                mmap_pos(o, d),
                mmap_tag(),
                None,
            ),
            _ => false,
        }
    }
}

/// Some used slot fails to read.
pub open spec fn scan_fails(o: ByteOrder, d: Seq<u8>) -> bool {
    exists|i: int| 0 <= i < slot_count(o, d) && !#[trigger] slot_ok(o, d, i)
}

/// `e` is the error of the first used slot that fails to read.
pub open spec fn scan_failure(e: ReadMovieError, o: ByteOrder, d: Seq<u8>) -> bool {
    match e {
        ReadMovieError::ReadChunkError(c) => exists|i: int|
            #![trigger slot_ok(o, d, i)]
            0 <= i < slot_count(o, d) && !slot_ok(o, d, i) && (forall|j: int|
                0 <= j < i ==> #[trigger] slot_ok(o, d, j)) && chunk_result(
                Err(c),
                o,
                d,
                slot_offset(o, d, i) as int,
                slot_tag(o, d, i),
                Some(slot_length(o, d, i)),
            ),
        _ => false,
    }
}

/// `chunks` holds exactly the live used slots, each the chunk read at the
/// offset that its slot records.
pub open spec fn registry_of(chunks: Map<u32, Chunk>, o: ByteOrder, d: Seq<u8>) -> bool {
    &&& forall|k: u32|
        #[trigger] chunks.contains_key(k) <==> (k < slot_count(o, d) && slot_live(o, d, k as int))
    &&& forall|k: u32|
        #[trigger] chunks.contains_key(k) ==> chunk_result(
            Ok(chunks[k]),
            o,
            d,
            slot_offset(o, d, k as int) as int,
            slot_tag(o, d, k as int),
            Some(slot_length(o, d, k as int)),
        )
}

/// `r` is the outcome of resolving the chunk table of `d` under `o`.
pub open spec fn table_outcome(
    r: Result<HashMap<u32, Chunk>, ReadMovieError>,
    o: ByteOrder,
    d: Seq<u8>,
) -> bool {
    if !bootstrap_ok(o, d) {
        r is Err && bootstrap_failure(r->Err_0, o, d)
    } else if scan_fails(o, d) {
        r is Err && scan_failure(r->Err_0, o, d)
    } else {
        r is Ok && registry_of(r->Ok_0@, o, d)
    }
}


/// A chunk read at `p` depends only on the bytes from `p` on.
pub proof fn lemma_chunk_reads_from_its_offset(
    o: ByteOrder,
    d: Seq<u8>,
    d2: Seq<u8>,
    p: int,
    expected_tag: Seq<char>,
    expected_length: Option<u32>,
)
    requires
        0 <= p,
        d.len() == d2.len(),
        forall|i: int| p <= i < d.len() ==> d[i] == d2[i],
    ensures
        chunk_ok(o, d, p, expected_tag, expected_length) == chunk_ok(
            o,
            d2,
            p,
            expected_tag,
            expected_length,
        ),
        chunk_ok(o, d, p, expected_tag, expected_length) ==> payload_at(o, d, p) == payload_at(
            o,
            d2,
            p,
        ),
        forall|r: Result<Chunk, ReadChunkError>|
            chunk_result(r, o, d, p, expected_tag, expected_length) == #[trigger] chunk_result(
                r,
                o,
                d2,
                p,
                expected_tag,
                expected_length,
            ),
{
    reveal(chunk_result);
    if p + 4 <= d.len() {
        assert(d.subrange(p, p + 4) =~= d2.subrange(p, p + 4));
        if p + 8 <= d.len() {
            assert(d.subrange(p + 4, p + 8) =~= d2.subrange(p + 4, p + 8));
            let e = chunk_end(o, d, p);
            if e <= d.len() {
                assert(d.subrange(p + 8, e) =~= d2.subrange(p + 8, e));
            }
        }
    }
}

/// The length that the meta chunk's header declares is never used: two
/// containers that differ only there bootstrap alike, reading the initial
/// map at offset 12 and, once it reads, the same memory map.
pub proof fn lemma_meta_declared_length_ignored(o: ByteOrder, d: Seq<u8>, d2: Seq<u8>)
    requires
        d.len() == d2.len(),
        forall|i: int| 0 <= i < d.len() && !(4 <= i < 8) ==> d[i] == d2[i],
        header_status(o, d, 0) is None,
        tag_text(o, d, 0) == meta_tag(),
        mmap_pos(o, d) >= 12,
    ensures
        imap_pos(o, d) == 12,
        imap_pos(o, d2) == 12,
        bootstrap_ok(o, d) == bootstrap_ok(o, d2),
        forall|e: ReadMovieError| bootstrap_failure(e, o, d) == #[trigger] bootstrap_failure(e, o, d2),
        chunk_ok(o, d, 12, imap_tag(), None) ==> mmap_pos(o, d) == mmap_pos(o, d2),
        chunk_ok(o, d, 12, imap_tag(), None) ==> forall|r: Result<Chunk, ReadChunkError>|
            chunk_result(r, o, d, mmap_pos(o, d), mmap_tag(), None) == #[trigger] chunk_result(
                r,
                o,
                d2,
                mmap_pos(o, d2),
                mmap_tag(),
                None,
            ),
{
    reveal(chunk_result);
    assert(d.subrange(0, 4) =~= d2.subrange(0, 4));
    assert(tag_text(o, d2, 0) == meta_tag());
    assert(header_status(o, d2, 0) is None);
    if 12 <= d.len() {
        assert(d.subrange(8, 12) =~= d2.subrange(8, 12));
        assert(payload_at(o, d, 0) == payload_at(o, d2, 0));
    }
    lemma_chunk_reads_from_its_offset(o, d, d2, 12, imap_tag(), None);
    if chunk_ok(o, d, 12, imap_tag(), None) {
        assert(mmap_pos(o, d) == mmap_pos(o, d2));
        lemma_chunk_reads_from_its_offset(o, d, d2, mmap_pos(o, d), mmap_tag(), None);
    }
}

/// A string holding the supported codec.
fn supported_codec_string() -> (r: String)
    ensures
        r@ == supported_codec(),
{
    let s = "MV93".to_owned();
    proof {
        reveal_strlit("MV93");
    }
    assert(s@ =~= supported_codec());
    s
}

/// A string holding the tag of a reclaimed slot.
fn free_tag_string() -> (r: String)
    ensures
        r@ == free_tag(),
{
    let s = "free".to_owned();
    proof {
        reveal_strlit("free");
    }
    assert(s@ =~= free_tag());
    s
}

/// A string holding the tag of a discarded slot.
fn junk_tag_string() -> (r: String)
    ensures
        r@ == junk_tag(),
{
    let s = "junk".to_owned();
    proof {
        reveal_strlit("junk");
    }
    assert(s@ =~= junk_tag());
    s
}

/// Seeks to offset 0, reads the meta chunk there, checks its codec, reads the initial
/// map after it and the memory map where the initial map points.
pub fn lookup_mmap(rdr: &mut Reader) -> (r: Result<Chunk, ReadMovieError>)
    ensures
        final(rdr).data == old(rdr).data,
        final(rdr).order == old(rdr).order,
        ({
            let o = old(rdr).order;
            let d = old(rdr).data@;
            &&& !bootstrap_ok(o, d) ==> r is Err && bootstrap_failure(r->Err_0, o, d)
            &&& bootstrap_ok(o, d) ==> match r {
                Ok(c) => chunk_result(Ok(c), o, d, mmap_pos(o, d), mmap_tag(), None),
                Err(_) => false,
            }
            &&& chunk_ok(o, d, 0, meta_tag(), None) && codec_of(o, d) != supported_codec()
                ==> final(rdr).pos == chunk_end(o, d, 0)
            &&& r is Ok ==> final(rdr).pos == chunk_end(o, d, mmap_pos(o, d))
        }),
{
    reveal(chunk_result);
    let ghost o = rdr.order;
    let ghost d = rdr.data@;
    rdr.pos = 0;
    let meta_expected = "RIFX".to_owned();
    proof {
        reveal_strlit("RIFX");
    }
    assert(meta_expected@ =~= meta_tag());
    let meta = rdr.read_chunk(meta_expected, None);
    proof {
        lemma_chunk_result_ok(meta, o, d, 0, meta_tag(), None);
    }
    let meta = match meta {
        Ok(c) => c,
        Err(e) => return Err(ReadMovieError::ReadChunkError(e)),
    };
    match meta.variant {
        ChunkVariant::Meta(m) => {
            if !(m.codec == supported_codec_string()) {
                return Err(ReadMovieError::UnsupportedCodec(m.codec));
            }
        },
        _ => {},
    }
    let imap = rdr.read_chunk(imap_tag_string(), None);
    proof {
        lemma_chunk_result_ok(imap, o, d, imap_pos(o, d), imap_tag(), None);
    }
    let imap = match imap {
        Ok(c) => c,
        Err(e) => return Err(ReadMovieError::ReadChunkError(e)),
    };
    let mmap_offset = match imap.variant {
        ChunkVariant::InitialMap(m) => {
            if m.entries.len() == 0 {
                return Err(ReadMovieError::ReadChunkError(ReadChunkError::TruncatedInput));
            }
            m.entries[0]
        },
        _ => return Err(ReadMovieError::ReadChunkError(ReadChunkError::TruncatedInput)),
    };
    rdr.pos = mmap_offset as usize;
    let mmap = rdr.read_chunk(mmap_tag_string(), None);
    proof {
        lemma_chunk_result_ok(mmap, o, d, mmap_pos(o, d), mmap_tag(), None);
    }
    match mmap {
        Ok(c) => Ok(c),
        Err(e) => Err(ReadMovieError::ReadChunkError(e)),
    }
}


/// Slot `i` fails: it is the first failing slot and `c` is its error.
proof fn lemma_first_failing_slot(o: ByteOrder, d: Seq<u8>, i: int, c: ReadChunkError)
    requires
        0 <= i < slot_count(o, d),
        !slot_ok(o, d, i),
        forall|j: int| 0 <= j < i ==> #[trigger] slot_ok(o, d, j),
        chunk_result(
            Err(c),
            o,
            d,
            slot_offset(o, d, i) as int,
            slot_tag(o, d, i),
            Some(slot_length(o, d, i)),
        ),
    ensures
        scan_fails(o, d),
        scan_failure(ReadMovieError::ReadChunkError(c), o, d),
{
}

/// Resolves the chunk table: bootstraps to the memory map, then reads every
/// used slot that is neither free nor junk, keyed by slot index.
pub fn read_chunks(rdr: &mut Reader) -> (r: Result<HashMap<u32, Chunk>, ReadMovieError>)
    ensures
        final(rdr).data@ == old(rdr).data@,
        final(rdr).order == old(rdr).order,
        table_outcome(r, old(rdr).order, old(rdr).data@),
{
    let ghost o = rdr.order;
    let ghost d = rdr.data@;
    let mut chunks: HashMap<u32, Chunk> = HashMap::new();
    let mmap = match lookup_mmap(rdr) {
        Ok(c) => c,
        Err(e) => return Err(e),
    };
    let ghost pm = mmap_payload(o, d);
    proof {
        reveal(chunk_result);
    }
    let free = free_tag_string();
    let junk = junk_tag_string();
    match mmap.variant {
        ChunkVariant::MemoryMap(m) => {
            let used = m.chunk_count_used;
            let mut i: u32 = 0;
            while i < used
                invariant
                    d == old(rdr).data@,
                    o == old(rdr).order,
                    rdr.data@ == d,
                    rdr.order == o,
                    bootstrap_ok(o, d),
                    pm == mmap_payload(o, d),
                    used == slot_count(o, d),
                    used == m.chunk_count_used,
                    crate::frame::mmap_decoded(m, o, pm),
                    free@ == free_tag(),
                    junk@ == junk_tag(),
                    i <= used,
                    forall|j: int| 0 <= j < i ==> #[trigger] slot_ok(o, d, j),
                    forall|k: u32|
                        #[trigger] chunks@.contains_key(k) <==> (k < i && slot_live(
                            o,
                            d,
                            k as int,
                        )),
                    forall|k: u32|
                        #[trigger] chunks@.contains_key(k) ==> chunk_result(
                            Ok(chunks@[k]),
                            o,
                            d,
                            slot_offset(o, d, k as int) as int,
                            slot_tag(o, d, k as int),
                            Some(slot_length(o, d, k as int)),
                        ),
                decreases used - i,
            {
                let entry = &m.entries[i as usize];
                assert(crate::frame::entry_decoded(*entry, o, pm, entry_at(i as int)));
                if !(entry.fourcc == free) && !(entry.fourcc == junk) {
                    rdr.pos = entry.offset as usize;
                    let res = rdr.read_chunk(entry.fourcc.clone(), Some(entry.length));
                    proof {
                        lemma_chunk_result_ok(
                            res,
                            o,
                            d,
                            slot_offset(o, d, i as int) as int,
                            slot_tag(o, d, i as int),
                            Some(slot_length(o, d, i as int)),
                        );
                    }
                    match res {
                        Ok(c) => {
                            chunks.insert(i, c);
                        },
                        Err(e) => {
                            proof {
                                lemma_first_failing_slot(o, d, i as int, e);
                            }
                            return Err(ReadMovieError::ReadChunkError(e));
                        },
                    }
                }
                assert(slot_ok(o, d, i as int));
                i = i + 1;
            }
            assert(!scan_fails(o, d));
        },
        _ => {},
    }
    Ok(chunks)
}

impl Movie {
    /// Resolves a whole container: picks the byte order from the leading
    /// marker, then resolves the chunk table.
    pub fn read(buf: &[u8]) -> (r: Result<Movie, ReadMovieError>)
        ensures
            ({
                let d = buf@;
                match detected_order(d) {
                    None => r == Err::<Movie, ReadMovieError>(ReadMovieError::InvalidHeader),
                    Some(o) => {
                        &&& !bootstrap_ok(o, d) ==> r is Err && bootstrap_failure(r->Err_0, o, d)
                        &&& bootstrap_ok(o, d) && scan_fails(o, d) ==> r is Err && scan_failure(
                            r->Err_0,
                            o,
                            d,
                        )
                        &&& bootstrap_ok(o, d) && !scan_fails(o, d) ==> r is Ok && r->Ok_0.order
                            == o && registry_of(r->Ok_0.chunks@, o, d)
                    },
                }
            }),
            // The marker alone picks the byte order.
            r is Ok ==> (r->Ok_0.order == ByteOrder::BigEndian <==> buf@.subrange(0, 4)
                == rifx_marker()),
            r is Ok ==> (r->Ok_0.order == ByteOrder::LittleEndian <==> buf@.subrange(0, 4)
                == xfir_marker()),
            // No used slot, no chunk.
            r is Ok && slot_count(r->Ok_0.order, buf@) == 0 ==> r->Ok_0.chunks@.is_empty(),
            // A codec other than the supported one stops the parse, whatever follows.
            forall|o: ByteOrder|
                detected_order(buf@) == Some(o) && chunk_ok(o, buf@, 0, meta_tag(), None)
                    && #[trigger] codec_of(o, buf@) != supported_codec() ==> match r {
                    Err(ReadMovieError::UnsupportedCodec(c)) => c@ == codec_of(o, buf@),
                    _ => false,
                },
    {
        if buf.len() < 4 {
            return Err(ReadMovieError::InvalidHeader);
        }
        assert(buf@.subrange(0, 4) =~= seq![buf@[0], buf@[1], buf@[2], buf@[3]]);
        let order = if buf[0] == 0x52 && buf[1] == 0x49 && buf[2] == 0x46 && buf[3] == 0x58 {
            ByteOrder::BigEndian
        } else if buf[0] == 0x58 && buf[1] == 0x46 && buf[2] == 0x49 && buf[3] == 0x52 {
            ByteOrder::LittleEndian
        } else {
            return Err(ReadMovieError::InvalidHeader);
        };
        let mut rdr = Reader::new(buf, order);
        match read_chunks(&mut rdr) {
            Ok(chunks) => {
                let r = Movie { chunks, order };
                assert(slot_count(order, buf@) == 0 ==> r.chunks@ =~= Map::empty());
                Ok(r)
            },
            Err(e) => Err(e),
        }
    }
}

} // verus!
