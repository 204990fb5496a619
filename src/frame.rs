use vstd::prelude::*;
use vstd::utf8::{decode_utf8, valid_utf8};

use crate::chunk::{Chunk, ChunkVariant, InitialMap, Meta, MemoryMap, MemoryMapEntry};
use crate::value::{
    fourcc_bytes, spec_i16, spec_i32, spec_u16, spec_u32, ByteOrder, ReadDirectorValues,
    ReadStringError, Reader,
};

verus! {

/// A chunk header that does not match what was expected of it.
#[derive(Debug)]
pub enum UnexpectedChunkError {
    /// Offset, expected tag, expected length, actual tag, actual length.
    KnownLength(u64, String, u32, String, u32),
    /// Offset, expected tag, actual tag, actual length.
    UnknownLength(u64, String, String, u32),
}

/// Why a chunk could not be read.
#[derive(Debug)]
pub enum ReadChunkError {
    /// Fewer bytes remain than a field or a payload needs.
    TruncatedInput,
    /// A tag could not be read.
    ReadStringError(ReadStringError),
    /// The chunk header did not match the expectation.
    UnexpectedChunk(UnexpectedChunkError),
    /// A memory map declares more used slots than its maximum.
    ChunkCountExceeded,
}

/// The tag of the outermost chunk, whose payload is always four bytes.
pub open spec fn meta_tag() -> Seq<char> {
    seq!['R', 'I', 'F', 'X']
}

/// The tag of the initial map.
pub open spec fn imap_tag() -> Seq<char> {
    seq!['i', 'm', 'a', 'p']
}

/// The tag of the memory map.
pub open spec fn mmap_tag() -> Seq<char> {
    seq!['m', 'm', 'a', 'p']
}

/// What goes wrong, if anything, decoding a meta payload `d`.
pub open spec fn rifx_status(o: ByteOrder, d: Seq<u8>) -> Option<ReadChunkError> {
    if d.len() < 4 {
        Some(ReadChunkError::ReadStringError(ReadStringError::TruncatedInput))
    } else if !valid_utf8(fourcc_bytes(o, d.subrange(0, 4))) {
        Some(ReadChunkError::ReadStringError(ReadStringError::EncodingError))
    } else {
        None
    }
}

/// `m` is the meta payload `d` decoded.
pub open spec fn meta_decoded(m: Meta, o: ByteOrder, d: Seq<u8>) -> bool {
    m.codec@ == decode_utf8(fourcc_bytes(o, d.subrange(0, 4)))
}

/// The entry count that an initial-map payload declares.
pub open spec fn imap_count(o: ByteOrder, d: Seq<u8>) -> u32 {
    spec_u32(o, d.subrange(0, 4))
}

/// What goes wrong, if anything, decoding an initial-map payload `d`.
pub open spec fn imap_status(o: ByteOrder, d: Seq<u8>) -> Option<ReadChunkError> {
    if d.len() < 4 || d.len() < 4 + 4 * imap_count(o, d) {
        Some(ReadChunkError::TruncatedInput)
    } else {
        None
    }
}

/// `m` is the initial-map payload `d` decoded.
pub open spec fn imap_decoded(m: InitialMap, o: ByteOrder, d: Seq<u8>) -> bool {
    &&& m.entry_count == imap_count(o, d)
    &&& m.entries@.len() == m.entry_count
    &&& forall|i: int|
        0 <= i < m.entries@.len() ==> #[trigger] m.entries@[i] == spec_u32(
            o,
            d.subrange(4 + 4 * i, 8 + 4 * i),
        )
}

/// The number of used slots that a memory-map payload declares.
pub open spec fn mmap_used(o: ByteOrder, d: Seq<u8>) -> u32 {
    spec_u32(o, d.subrange(8, 12))
}

/// The maximum number of slots that a memory-map payload declares.
pub open spec fn mmap_max(o: ByteOrder, d: Seq<u8>) -> u32 {
    spec_u32(o, d.subrange(4, 8))
}

/// Where entry `i` of a memory-map payload starts.
pub open spec fn entry_at(i: int) -> int {
    24 + 20 * i
}

/// What goes wrong, if anything, decoding the memory-map entry at `at`.
pub open spec fn entry_status(o: ByteOrder, d: Seq<u8>, at: int) -> Option<ReadChunkError> {
    if d.len() < at + 4 {
        Some(ReadChunkError::ReadStringError(ReadStringError::TruncatedInput))
    } else if !valid_utf8(fourcc_bytes(o, d.subrange(at, at + 4))) {
        Some(ReadChunkError::ReadStringError(ReadStringError::EncodingError))
    } else if d.len() < at + 20 {
        Some(ReadChunkError::TruncatedInput)
    } else {
        None
    }
}

/// The first thing that goes wrong decoding entries `i .. n`, if any.
pub open spec fn entries_status(o: ByteOrder, d: Seq<u8>, i: nat, n: nat) -> Option<
    ReadChunkError,
>
    decreases n - i,
{
    if i >= n {
        None
    } else {
        match entry_status(o, d, entry_at(i as int)) {
            Some(e) => Some(e),
            None => entries_status(o, d, i + 1, n),
        }
    }
}

/// What goes wrong, if anything, decoding a memory-map payload `d`.
pub open spec fn mmap_status(o: ByteOrder, d: Seq<u8>) -> Option<ReadChunkError> {
    if d.len() < 24 {
        Some(ReadChunkError::TruncatedInput)
    } else if mmap_used(o, d) > mmap_max(o, d) {
        Some(ReadChunkError::ChunkCountExceeded)
    } else {
        entries_status(o, d, 0, mmap_used(o, d) as nat)
    }
}

/// `e` is the memory-map entry at `at` of `d` decoded.
pub open spec fn entry_decoded(e: MemoryMapEntry, o: ByteOrder, d: Seq<u8>, at: int) -> bool {
    &&& e.fourcc@ == decode_utf8(fourcc_bytes(o, d.subrange(at, at + 4)))
    &&& e.length == spec_u32(o, d.subrange(at + 4, at + 8))
    &&& e.offset == spec_u32(o, d.subrange(at + 8, at + 12))
    &&& e.padding == spec_i16(o, d.subrange(at + 12, at + 14))
    &&& e.unknown0 == spec_i16(o, d.subrange(at + 14, at + 16))
    &&& e.link == spec_i32(o, d.subrange(at + 16, at + 20))
}

/// `m` is the memory-map payload `d` decoded.
pub open spec fn mmap_decoded(m: MemoryMap, o: ByteOrder, d: Seq<u8>) -> bool {
    &&& m.unknown0 == spec_u16(o, d.subrange(0, 2))
    &&& m.unknown1 == spec_u16(o, d.subrange(2, 4))
    &&& m.chunk_count_max == mmap_max(o, d)
    &&& m.chunk_count_used == mmap_used(o, d)
    &&& m.chunk_count_used <= m.chunk_count_max
    &&& m.junk_pointer == spec_i32(o, d.subrange(12, 16))
    &&& m.unknown2 == spec_i32(o, d.subrange(16, 20))
    &&& m.free_pointer == spec_i32(o, d.subrange(20, 24))
    &&& m.entries@.len() == m.chunk_count_used
    &&& forall|i: int|
        0 <= i < m.entries@.len() ==> entry_decoded(#[trigger] m.entries@[i], o, d, entry_at(i))
}

/// Decodes a meta payload: one embedded codec tag.
pub fn read_rifx(payload: &[u8], order: ByteOrder) -> (r: Result<ChunkVariant, ReadChunkError>)
    ensures
        match rifx_status(order, payload@) {
            Some(e) => r == Err::<ChunkVariant, ReadChunkError>(e),
            None => match r {
                Ok(ChunkVariant::Meta(m)) => meta_decoded(m, order, payload@),
                _ => false,
            },
        },
{
    let mut rdr = Reader::new(payload, order);
    assert(payload@.subrange(0, payload@.len() as int) =~= payload@);
    match rdr.read_fourcc() {
        Ok(codec) => Ok(ChunkVariant::Meta(Meta { codec })),
        Err(e) => Err(ReadChunkError::ReadStringError(e)),
    }
}


/// Decodes an initial-map payload: a count, then that many offsets.
pub fn read_imap(payload: &[u8], order: ByteOrder) -> (r: Result<ChunkVariant, ReadChunkError>)
    ensures
        match imap_status(order, payload@) {
            Some(e) => r == Err::<ChunkVariant, ReadChunkError>(e),
            None => match r {
                Ok(ChunkVariant::InitialMap(m)) => imap_decoded(m, order, payload@),
                _ => false,
            },
        },
{
    let ghost d = payload@;
    let mut rdr = Reader::new(payload, order);
    let entry_count = match rdr.read_u32() {
        Some(n) => n,
        None => return Err(ReadChunkError::TruncatedInput),
    };
    assert(d.subrange(0, 4) == rdr.data@.subrange(0, 4));
    let mut entries: Vec<u32> = Vec::new();
    let mut i: u32 = 0;
    while i < entry_count
        invariant
            d == payload@,
            rdr.data@ == d,
            rdr.order == order,
            d.len() >= 4,
            entry_count == imap_count(order, d),
            i <= entry_count,
            rdr.pos == 4 + 4 * i,
            rdr.pos <= d.len(),
            entries@.len() == i,
            forall|j: int|
                0 <= j < i ==> #[trigger] entries@[j] == spec_u32(
                    order,
                    d.subrange(4 + 4 * j, 8 + 4 * j),
                ),
        decreases entry_count - i,
    {
        match rdr.read_u32() {
            Some(v) => {
                entries.push(v);
            },
            None => return Err(ReadChunkError::TruncatedInput),
        }
        i = i + 1;
    }
    Ok(ChunkVariant::InitialMap(InitialMap { entry_count, entries }))
}

/// Decodes the memory-map entry at the cursor.
fn read_mmap_entry(rdr: &mut Reader) -> (r: Result<MemoryMapEntry, ReadChunkError>)
    ensures
        final(rdr).data == old(rdr).data,
        final(rdr).order == old(rdr).order,
        match entry_status(old(rdr).order, old(rdr).data@, old(rdr).pos as int) {
            Some(e) => r == Err::<MemoryMapEntry, ReadChunkError>(e),
            None => match r {
                Ok(e) => entry_decoded(e, old(rdr).order, old(rdr).data@, old(rdr).pos as int)
                    && final(rdr).pos == old(rdr).pos + 20,
                _ => false,
            },
        },
{
    let fourcc = match rdr.read_fourcc() {
        Ok(s) => s,
        Err(e) => return Err(ReadChunkError::ReadStringError(e)),
    };
    let length = match rdr.read_u32() {
        Some(v) => v,
        None => return Err(ReadChunkError::TruncatedInput),
    };
    let offset = match rdr.read_u32() {
        Some(v) => v,
        None => return Err(ReadChunkError::TruncatedInput),
    };
    let padding = match rdr.read_i16() {
        Some(v) => v,
        None => return Err(ReadChunkError::TruncatedInput),
    };
    let unknown0 = match rdr.read_i16() {
        Some(v) => v,
        None => return Err(ReadChunkError::TruncatedInput),
    };
    let link = match rdr.read_i32() {
        Some(v) => v,
        None => return Err(ReadChunkError::TruncatedInput),
    };
    Ok(MemoryMapEntry { fourcc, length, offset, padding, unknown0, link })
}

/// Decodes a memory-map payload: a fixed header, then one entry per used
/// slot; more used slots than the maximum is an error.
pub fn read_mmap(payload: &[u8], order: ByteOrder) -> (r: Result<ChunkVariant, ReadChunkError>)
    ensures
        match mmap_status(order, payload@) {
            Some(e) => r == Err::<ChunkVariant, ReadChunkError>(e),
            None => match r {
                Ok(ChunkVariant::MemoryMap(m)) => mmap_decoded(m, order, payload@),
                _ => false,
            },
        },
{
    let ghost d = payload@;
    let mut rdr = Reader::new(payload, order);
    if !rdr.has(24) {
        return Err(ReadChunkError::TruncatedInput);
    }
    let unknown0 = rdr.read_u16().unwrap();
    let unknown1 = rdr.read_u16().unwrap();
    let chunk_count_max = rdr.read_u32().unwrap();
    let chunk_count_used = rdr.read_u32().unwrap();
    let junk_pointer = rdr.read_i32().unwrap();
    let unknown2 = rdr.read_i32().unwrap();
    let free_pointer = rdr.read_i32().unwrap();
    if chunk_count_used > chunk_count_max {
        return Err(ReadChunkError::ChunkCountExceeded);
    }
    let ghost n = chunk_count_used as nat;
    let mut entries: Vec<MemoryMapEntry> = Vec::new();
    let mut i: u32 = 0;
    while i < chunk_count_used
        invariant
            d == payload@,
            n == chunk_count_used as nat,
            rdr.data@ == d,
            rdr.order == order,
            d.len() >= 24,
            chunk_count_used == mmap_used(order, d),
            chunk_count_max == mmap_max(order, d),
            chunk_count_used <= chunk_count_max,
            i <= chunk_count_used,
            rdr.pos == entry_at(i as int),
            entries@.len() == i,
            entries_status(order, d, 0, n) == entries_status(order, d, i as nat, n),
            forall|j: int|
                0 <= j < i ==> entry_decoded(#[trigger] entries@[j], order, d, entry_at(j)),
        decreases chunk_count_used - i,
    {
        let entry = read_mmap_entry(&mut rdr);
        assert(entries_status(order, d, i as nat, n) == match entry_status(
            order,
            d,
            entry_at(i as int),
        ) {
            Some(e) => Some(e),
            None => entries_status(order, d, i as nat + 1, n),
        });
        match entry {
            Ok(e) => {
                entries.push(e);
            },
            Err(e) => return Err(e),
        }
        i = i + 1;
    }
    Ok(
        ChunkVariant::MemoryMap(
            MemoryMap {
                unknown0,
                unknown1,
                chunk_count_max,
                chunk_count_used,
                junk_pointer,
                unknown2,
                free_pointer,
                entries,
            },
        ),
    )
}


/// The tag bytes, in reading order, of a chunk header at `p`.
pub open spec fn tag_at(o: ByteOrder, d: Seq<u8>, p: int) -> Seq<u8> {
    fourcc_bytes(o, d.subrange(p, p + 4))
}

/// The tag text of a chunk header at `p`.
pub open spec fn tag_text(o: ByteOrder, d: Seq<u8>, p: int) -> Seq<char> {
    decode_utf8(tag_at(o, d, p))
}

/// The length that a chunk header at `p` declares.
pub open spec fn declared_len(o: ByteOrder, d: Seq<u8>, p: int) -> u32 {
    spec_u32(o, d.subrange(p + 4, p + 8))
}

/// The payload length actually carved: four for the meta chunk, whatever
/// its header declares, else the declared length.
pub open spec fn payload_len(tag: Seq<char>, declared: u32) -> int {
    if tag == meta_tag() {
        4
    } else {
        declared as int
    }
}

/// Where the payload of a chunk at `p` ends.
pub open spec fn chunk_end(o: ByteOrder, d: Seq<u8>, p: int) -> int {
    p + 8 + payload_len(tag_text(o, d, p), declared_len(o, d, p))
}

/// The payload of a chunk at `p`.
pub open spec fn payload_at(o: ByteOrder, d: Seq<u8>, p: int) -> Seq<u8> {
    d.subrange(p + 8, chunk_end(o, d, p))
}

/// What goes wrong, if anything, reading the 8-byte header at `p`.
pub open spec fn header_status(o: ByteOrder, d: Seq<u8>, p: int) -> Option<ReadChunkError> {
    if d.len() < p + 4 {
        Some(ReadChunkError::ReadStringError(ReadStringError::TruncatedInput))
    } else if !valid_utf8(tag_at(o, d, p)) {
        Some(ReadChunkError::ReadStringError(ReadStringError::EncodingError))
    } else if d.len() < p + 8 {
        Some(ReadChunkError::TruncatedInput)
    } else {
        None
    }
}

/// A header with `tag` and `declared` length meets the expectation: the tag
/// always, the length when one is expected.
pub open spec fn frame_matches(
    tag: Seq<char>,
    declared: u32,
    expected_tag: Seq<char>,
    expected_length: Option<u32>,
) -> bool {
    &&& tag == expected_tag
    &&& match expected_length {
        Some(n) => n == declared,
        None => true,
    }
}

/// `u` records a mismatch at offset `p` between the expectation and the
/// header found.
pub open spec fn unexpected_recorded(
    u: UnexpectedChunkError,
    p: int,
    expected_tag: Seq<char>,
    expected_length: Option<u32>,
    tag: Seq<char>,
    declared: u32,
) -> bool {
    match (expected_length, u) {
        (Some(n), UnexpectedChunkError::KnownLength(off, et, en, t, l)) => off == p && et@
            == expected_tag && en == n && t@ == tag && l == declared,
        (None, UnexpectedChunkError::UnknownLength(off, et, t, l)) => off == p && et@
            == expected_tag && t@ == tag && l == declared,
        _ => false,
    }
}

/// What goes wrong, if anything, decoding payload `d` of a chunk tagged `tag`.
pub open spec fn payload_status(o: ByteOrder, tag: Seq<char>, d: Seq<u8>) -> Option<
    ReadChunkError,
> {
    if tag == meta_tag() {
        rifx_status(o, d)
    } else if tag == imap_tag() {
        imap_status(o, d)
    } else if tag == mmap_tag() {
        mmap_status(o, d)
    } else {
        None
    }
}

/// `v` is payload `d` of a chunk tagged `tag` decoded.
pub open spec fn variant_decoded(v: ChunkVariant, o: ByteOrder, tag: Seq<char>, d: Seq<u8>) -> bool {
    match v {
        ChunkVariant::Meta(m) => tag == meta_tag() && meta_decoded(m, o, d),
        ChunkVariant::InitialMap(m) => tag == imap_tag() && imap_decoded(m, o, d),
        ChunkVariant::MemoryMap(m) => tag == mmap_tag() && mmap_decoded(m, o, d),
        ChunkVariant::Unimplemented => tag != meta_tag() && tag != imap_tag() && tag != mmap_tag(),
    }
}

/// `r` is the outcome of reading, at `p` of `d`, a chunk expected to carry
/// `expected_tag` and, when given, `expected_length`.
#[verifier::opaque]
pub open spec fn chunk_result(
    r: Result<Chunk, ReadChunkError>,
    o: ByteOrder,
    d: Seq<u8>,
    p: int,
    expected_tag: Seq<char>,
    expected_length: Option<u32>,
) -> bool {
    let tag = tag_text(o, d, p);
    let declared = declared_len(o, d, p);
    match header_status(o, d, p) {
        Some(e) => r == Err::<Chunk, ReadChunkError>(e),
        None => if !frame_matches(tag, declared, expected_tag, expected_length) {
            match r {
                Err(ReadChunkError::UnexpectedChunk(u)) => unexpected_recorded(
                    u,
                    p,
                    expected_tag,
                    expected_length,
                    tag,
                    declared,
                ),
                _ => false,
            }
        } else if d.len() < chunk_end(o, d, p) {
            r == Err::<Chunk, ReadChunkError>(ReadChunkError::TruncatedInput)
        } else {
            match payload_status(o, tag, payload_at(o, d, p)) {
                Some(e) => r == Err::<Chunk, ReadChunkError>(e),
                None => match r {
                    Ok(c) => c.fourcc@ == tag && variant_decoded(
                        c.variant,
                        o,
                        tag,
                        payload_at(o, d, p),
                    ),
                    Err(_) => false,
                },
            }
        },
    }
}

/// The chunk at `p` reads without error against the expectation.
pub open spec fn chunk_ok(
    o: ByteOrder,
    d: Seq<u8>,
    p: int,
    expected_tag: Seq<char>,
    expected_length: Option<u32>,
) -> bool {
    &&& header_status(o, d, p) is None
    &&& frame_matches(tag_text(o, d, p), declared_len(o, d, p), expected_tag, expected_length)
    &&& chunk_end(o, d, p) <= d.len()
    &&& payload_status(o, tag_text(o, d, p), payload_at(o, d, p)) is None
}

/// A chunk read succeeds exactly when the chunk reads without error.
pub proof fn lemma_chunk_result_ok(
    r: Result<Chunk, ReadChunkError>,
    o: ByteOrder,
    d: Seq<u8>,
    p: int,
    expected_tag: Seq<char>,
    expected_length: Option<u32>,
)
    requires
        chunk_result(r, o, d, p, expected_tag, expected_length),
    ensures
        r is Ok <==> chunk_ok(o, d, p, expected_tag, expected_length),
{
    reveal(chunk_result);
}

/// A chunk read against an expected tag and length yields a chunk with
/// exactly that tag and declared length; a header with another tag or
/// length yields `UnexpectedChunk` recording the offset that was read.
pub proof fn lemma_chunk_matches_expectation(
    r: Result<Chunk, ReadChunkError>,
    o: ByteOrder,
    d: Seq<u8>,
    p: int,
    expected_tag: Seq<char>,
    expected_length: u32,
)
    requires
        chunk_result(r, o, d, p, expected_tag, Some(expected_length)),
    ensures
        r is Ok ==> r->Ok_0.fourcc@ == expected_tag && tag_text(o, d, p) == expected_tag
            && declared_len(o, d, p) == expected_length,
        header_status(o, d, p) is None && (tag_text(o, d, p) != expected_tag || declared_len(
            o,
            d,
            p,
        ) != expected_length) ==> match r {
            Err(
                ReadChunkError::UnexpectedChunk(UnexpectedChunkError::KnownLength(off, et, n, t, l)),
            ) => off == p && et@ == expected_tag && n == expected_length && t@ == tag_text(o, d, p)
                && l == declared_len(o, d, p),
            _ => false,
        },
{
    reveal(chunk_result);
}

/// A string holding the meta tag.
fn meta_tag_string() -> (r: String)
    ensures
        r@ == meta_tag(),
{
    let s = "RIFX".to_owned();
    proof {
        reveal_strlit("RIFX");
    }
    assert(s@ =~= meta_tag());
    s
}

/// A string holding the initial-map tag.
pub fn imap_tag_string() -> (r: String)
    ensures
        r@ == imap_tag(),
{
    let s = "imap".to_owned();
    proof {
        reveal_strlit("imap");
    }
    assert(s@ =~= imap_tag());
    s
}

/// A string holding the memory-map tag.
pub fn mmap_tag_string() -> (r: String)
    ensures
        r@ == mmap_tag(),
{
    let s = "mmap".to_owned();
    proof {
        reveal_strlit("mmap");
    }
    assert(s@ =~= mmap_tag());
    s
}

/// Chunk reads over a cursor.
pub trait ReadChunks: ReadDirectorValues {
    /// Reads the chunk at the cursor, checks its header against the
    /// expectation, carves its payload and decodes it by tag.
    fn read_chunk(&mut self, expected_fourcc: String, expected_length: Option<u32>) -> (r: Result<
        Chunk,
        ReadChunkError,
    >)
        ensures
            final(self).source() == old(self).source(),
            final(self).byte_order() == old(self).byte_order(),
            chunk_result(
                r,
                old(self).byte_order(),
                old(self).source(),
                old(self).position(),
                expected_fourcc@,
                expected_length,
            ),
            r is Ok && r->Ok_0.fourcc@ == meta_tag() ==> final(self).position() == old(
                self,
            ).position() + 12,
            r is Ok ==> final(self).position() == chunk_end(
                old(self).byte_order(),
                old(self).source(),
                old(self).position(),
            ),
    ;
}

impl<'a> ReadChunks for Reader<'a> {
    fn read_chunk(&mut self, expected_fourcc: String, expected_length: Option<u32>) -> (r: Result<
        Chunk,
        ReadChunkError,
    >)
    {
        reveal(chunk_result);
        let offset = self.pos;
        let fourcc = match self.read_fourcc() {
            Ok(s) => s,
            Err(e) => return Err(ReadChunkError::ReadStringError(e)),
        };
        let length = match self.read_u32() {
            Some(n) => n,
            None => return Err(ReadChunkError::TruncatedInput),
        };
        match expected_length {
            Some(n) => {
                if n != length || !(expected_fourcc == fourcc) {
                    return Err(
                        ReadChunkError::UnexpectedChunk(
                            UnexpectedChunkError::KnownLength(
                                offset as u64,
                                expected_fourcc,
                                n,
                                fourcc,
                                length,
                            ),
                        ),
                    );
                }
            },
            None => {
                if !(expected_fourcc == fourcc) {
                    return Err(
                        ReadChunkError::UnexpectedChunk(
                            UnexpectedChunkError::UnknownLength(
                                offset as u64,
                                expected_fourcc,
                                fourcc,
                                length,
                            ),
                        ),
                    );
                }
            },
        }
        let is_meta = fourcc == meta_tag_string();
        let effective: u32 = if is_meta {
            4
        } else {
            length
        };
        if !self.has(effective as usize) {
            return Err(ReadChunkError::TruncatedInput);
        }
        let start = self.pos;
        let _ = self.data.len();
        let payload = vstd::slice::slice_subrange(self.data, start, start + effective as usize);
        self.pos = start + effective as usize;
        let res = if is_meta {
            read_rifx(payload, self.order)
        } else if fourcc == imap_tag_string() {
            read_imap(payload, self.order)
        } else if fourcc == mmap_tag_string() {
            read_mmap(payload, self.order)
        } else {
            Ok(ChunkVariant::Unimplemented)
        };
        match res {
            Ok(variant) => Ok(Chunk { fourcc, variant }),
            Err(e) => Err(e),
        }
    }
}

} // verus!
