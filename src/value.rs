use vstd::prelude::*;
use vstd::utf8::{decode_utf8, valid_utf8};

verus! {

/// The byte order of a container, fixed for a whole parse.
#[derive(Clone, Copy, PartialEq, Eq, Structural, Debug)]
pub enum ByteOrder {
    BigEndian,
    LittleEndian,
}

/// The unsigned 16-bit value stored in the first two bytes of `b`.
pub open spec fn spec_u16(order: ByteOrder, b: Seq<u8>) -> u16
    recommends
        b.len() >= 2,
{
    match order {
        ByteOrder::BigEndian => (b[0] as int * 256 + b[1] as int) as u16,
        ByteOrder::LittleEndian => (b[1] as int * 256 + b[0] as int) as u16,
    }
}

/// The unsigned 32-bit value stored in the first four bytes of `b`.
pub open spec fn spec_u32(order: ByteOrder, b: Seq<u8>) -> u32
    recommends
        b.len() >= 4,
{
    match order {
        ByteOrder::BigEndian => (b[0] as int * 0x100_0000 + b[1] as int * 0x1_0000 + b[2] as int
            * 0x100 + b[3] as int) as u32,
        ByteOrder::LittleEndian => (b[3] as int * 0x100_0000 + b[2] as int * 0x1_0000 + b[1] as int
            * 0x100 + b[0] as int) as u32,
    }
}

/// The two's-complement 16-bit value stored in the first two bytes of `b`.
pub open spec fn spec_i16(order: ByteOrder, b: Seq<u8>) -> i16
    recommends
        b.len() >= 2,
{
    let u = spec_u16(order, b) as int;
    (if u < 0x8000 { u } else { u - 0x1_0000 }) as i16
}

/// The two's-complement 32-bit value stored in the first four bytes of `b`.
pub open spec fn spec_i32(order: ByteOrder, b: Seq<u8>) -> i32
    recommends
        b.len() >= 4,
{
    let u = spec_u32(order, b) as int;
    (if u < 0x8000_0000 { u } else { u - 0x1_0000_0000 }) as i32
}

/// The four stored bytes of a tag, put in reading order: as stored under
/// big-endian, reversed under little-endian.
pub open spec fn fourcc_bytes(order: ByteOrder, b: Seq<u8>) -> Seq<u8>
    recommends
        b.len() >= 4,
{
    match order {
        ByteOrder::BigEndian => b.subrange(0, 4),
        ByteOrder::LittleEndian => seq![b[3], b[2], b[1], b[0]],
    }
}

/// Relies on String::from_utf8: it succeeds exactly on well-formed UTF-8,
/// and the text it returns is what those bytes encode.
#[verifier::external_body]
fn string_from_utf8(b: Vec<u8>) -> (r: Option<String>)
    ensures
        r is Some <==> valid_utf8(b@),
        r is Some ==> r->Some_0@ == decode_utf8(b@),
{
    String::from_utf8(b).ok()
}

impl ByteOrder {
    /// Decodes a stored four-byte tag as text, in reading order.
    pub fn read_fourcc(&self, buf: Vec<u8>) -> (r: Option<String>)
        requires
            buf@.len() == 4,
        ensures
            r is Some <==> valid_utf8(fourcc_bytes(*self, buf@)),
            r is Some ==> r->Some_0@ == decode_utf8(fourcc_bytes(*self, buf@)),
    {
        match self {
            ByteOrder::BigEndian => {
                assert(buf@ =~= fourcc_bytes(*self, buf@));
                string_from_utf8(buf)
            },
            ByteOrder::LittleEndian => {
                let v = vec![buf[3], buf[2], buf[1], buf[0]];
                assert(v@ =~= fourcc_bytes(*self, buf@));
                string_from_utf8(v)
            },
        }
    }

    /// The unsigned 16-bit value of two stored bytes.
    pub fn u16_from(&self, b0: u8, b1: u8) -> (r: u16)
        ensures
            r == spec_u16(*self, seq![b0, b1]),
    {
        match self {
            ByteOrder::BigEndian => b0 as u16 * 256 + b1 as u16,
            ByteOrder::LittleEndian => b1 as u16 * 256 + b0 as u16,
        }
    }

    /// The unsigned 32-bit value of four stored bytes.
    pub fn u32_from(&self, b0: u8, b1: u8, b2: u8, b3: u8) -> (r: u32)
        ensures
            r == spec_u32(*self, seq![b0, b1, b2, b3]),
    {
        match self {
            ByteOrder::BigEndian => b0 as u32 * 0x100_0000 + b1 as u32 * 0x1_0000 + b2 as u32
                * 0x100 + b3 as u32,
            ByteOrder::LittleEndian => b3 as u32 * 0x100_0000 + b2 as u32 * 0x1_0000 + b1 as u32
                * 0x100 + b0 as u32,
        }
    }
}


/// Why a string or a tag could not be read.
#[derive(Clone, Copy, PartialEq, Eq, Structural, Debug)]
pub enum ReadStringError {
    /// Fewer bytes remain than the value needs.
    TruncatedInput,
    /// The bytes are not well-formed UTF-8.
    EncodingError,
}

/// A cursor over one borrowed buffer, with the byte order of the parse.
pub struct Reader<'a> {
    pub data: &'a [u8],
    pub pos: usize,
    pub order: ByteOrder,
}

/// Text and tag reads over a cursor.
pub trait ReadDirectorValues: Sized {
    /// The whole buffer under the cursor.
    spec fn source(&self) -> Seq<u8>;

    /// The cursor position within `source()`.
    spec fn position(&self) -> int;

    /// The byte order of the cursor.
    spec fn byte_order(&self) -> ByteOrder;

    /// Reads `length` bytes as UTF-8 text; the bytes are consumed even when
    /// they are not well-formed.
    fn read_string(&mut self, length: usize) -> (r: Result<String, ReadStringError>)
        ensures
            final(self).source() == old(self).source(),
            final(self).byte_order() == old(self).byte_order(),
            ({
                let d = old(self).source();
                let p = old(self).position();
                let b = d.subrange(p, p + length);
                &&& d.len() < p + length ==> r == Err::<String, ReadStringError>(
                    ReadStringError::TruncatedInput,
                )
                &&& p + length <= d.len() && !valid_utf8(b) ==> r == Err::<String, ReadStringError>(
                    ReadStringError::EncodingError,
                )
                &&& p + length <= d.len() && valid_utf8(b) ==> r is Ok && r->Ok_0@ == decode_utf8(b)
                &&& p + length <= d.len() ==> final(self).position() == p + length
                &&& d.len() < p + length ==> final(self).position() == p
            }),
    ;

    /// Reads a four-byte tag, reversed under little-endian, as UTF-8 text;
    /// the four bytes are consumed even when they are not well-formed.
    fn read_fourcc(&mut self) -> (r: Result<String, ReadStringError>)
        ensures
            final(self).source() == old(self).source(),
            final(self).byte_order() == old(self).byte_order(),
            ({
                let d = old(self).source();
                let p = old(self).position();
                let b = fourcc_bytes(old(self).byte_order(), d.subrange(p, p + 4));
                &&& d.len() < p + 4 ==> r == Err::<String, ReadStringError>(
                    ReadStringError::TruncatedInput,
                )
                &&& p + 4 <= d.len() && !valid_utf8(b) ==> r == Err::<String, ReadStringError>(
                    ReadStringError::EncodingError,
                )
                &&& p + 4 <= d.len() && valid_utf8(b) ==> r is Ok && r->Ok_0@ == decode_utf8(b)
                &&& p + 4 <= d.len() ==> final(self).position() == p + 4
                &&& d.len() < p + 4 ==> final(self).position() == p
            }),
    ;
}

impl<'a> Reader<'a> {
    /// A cursor at the start of `data`.
    pub fn new(data: &'a [u8], order: ByteOrder) -> (r: Reader<'a>)
        ensures
            r.data@ == data@,
            r.pos == 0,
            r.order == order,
    {
        Reader { data, pos: 0, order }
    }

    /// Whether `n` more bytes remain after the cursor.
    pub fn has(&self, n: usize) -> (r: bool)
        ensures
            r == (self.pos + n <= self.data@.len()),
    {
        self.pos <= self.data.len() && n <= self.data.len() - self.pos
    }

    /// Reads an unsigned 16-bit value; `None` when fewer than two bytes remain.
    pub fn read_u16(&mut self) -> (r: Option<u16>)
        ensures
            final(self).data == old(self).data,
            final(self).order == old(self).order,
            ({
                let d = old(self).data@;
                let p = old(self).pos as int;
                &&& d.len() < p + 2 ==> r is None && final(self).pos == p
                &&& p + 2 <= d.len() ==> r == Some(spec_u16(old(self).order, d.subrange(p, p + 2)))
                    && final(self).pos == p + 2
            }),
    {
        if !self.has(2) {
            return None;
        }
        let p = self.pos;
        let v = self.order.u16_from(self.data[p], self.data[p + 1]);
        assert(self.data@.subrange(p as int, p + 2) =~= seq![self.data[p as int], self.data[p + 1]]);
        self.pos = p + 2;
        Some(v)
    }

    /// Reads an unsigned 32-bit value; `None` when fewer than four bytes remain.
    pub fn read_u32(&mut self) -> (r: Option<u32>)
        ensures
            final(self).data == old(self).data,
            final(self).order == old(self).order,
            ({
                let d = old(self).data@;
                let p = old(self).pos as int;
                &&& d.len() < p + 4 ==> r is None && final(self).pos == p
                &&& p + 4 <= d.len() ==> r == Some(spec_u32(old(self).order, d.subrange(p, p + 4)))
                    && final(self).pos == p + 4
            }),
    {
        if !self.has(4) {
            return None;
        }
        let p = self.pos;
        let v = self.order.u32_from(
            self.data[p],
            self.data[p + 1],
            self.data[p + 2],
            self.data[p + 3],
        );
        assert(self.data@.subrange(p as int, p + 4) =~= seq![
            self.data[p as int],
            self.data[p + 1],
            self.data[p + 2],
            self.data[p + 3],
        ]);
        self.pos = p + 4;
        Some(v)
    }

    /// Reads a signed 16-bit value; `None` when fewer than two bytes remain.
    pub fn read_i16(&mut self) -> (r: Option<i16>)
        ensures
            final(self).data == old(self).data,
            final(self).order == old(self).order,
            ({
                let d = old(self).data@;
                let p = old(self).pos as int;
                &&& d.len() < p + 2 ==> r is None && final(self).pos == p
                &&& p + 2 <= d.len() ==> r == Some(spec_i16(old(self).order, d.subrange(p, p + 2)))
                    && final(self).pos == p + 2
            }),
    {
        match self.read_u16() {
            None => None,
            Some(u) => {
                if u < 0x8000 {
                    Some(u as i16)
                } else {
                    Some(((u - 0x8000) as i16) - 0x7fff - 1)
                }
            },
        }
    }

    /// Reads a signed 32-bit value; `None` when fewer than four bytes remain.
    pub fn read_i32(&mut self) -> (r: Option<i32>)
        ensures
            final(self).data == old(self).data,
            final(self).order == old(self).order,
            ({
                let d = old(self).data@;
                let p = old(self).pos as int;
                &&& d.len() < p + 4 ==> r is None && final(self).pos == p
                &&& p + 4 <= d.len() ==> r == Some(spec_i32(old(self).order, d.subrange(p, p + 4)))
                    && final(self).pos == p + 4
            }),
    {
        match self.read_u32() {
            None => None,
            Some(u) => {
                if u < 0x8000_0000 {
                    Some(u as i32)
                } else {
                    Some(((u - 0x8000_0000) as i32) - 0x7fff_ffff - 1)
                }
            },
        }
    }
}

impl<'a> ReadDirectorValues for Reader<'a> {
    open spec fn source(&self) -> Seq<u8> {
        self.data@
    }

    open spec fn position(&self) -> int {
        self.pos as int
    }

    open spec fn byte_order(&self) -> ByteOrder {
        self.order
    }

    fn read_string(&mut self, length: usize) -> (r: Result<String, ReadStringError>) {
        if !self.has(length) {
            return Err(ReadStringError::TruncatedInput);
        }
        let p = self.pos;
        let _ = self.data.len();
        let buf = vstd::slice::slice_to_vec(vstd::slice::slice_subrange(self.data, p, p + length));
        self.pos = p + length;
        match string_from_utf8(buf) {
            Some(s) => Ok(s),
            None => Err(ReadStringError::EncodingError),
        }
    }

    fn read_fourcc(&mut self) -> (r: Result<String, ReadStringError>) {
        if !self.has(4) {
            return Err(ReadStringError::TruncatedInput);
        }
        let p = self.pos;
        let _ = self.data.len();
        let buf = vstd::slice::slice_to_vec(vstd::slice::slice_subrange(self.data, p, p + 4));
        self.pos = p + 4;
        match self.order.read_fourcc(buf) {
            Some(s) => Ok(s),
            None => Err(ReadStringError::EncodingError),
        }
    }
}

} // verus!
