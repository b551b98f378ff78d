//! Byte-level wire framing used by the network-facing protocols, specified
//! as an interface contract: unsigned integers of 1/2/4/8 bytes are
//! big-endian; a byte string is a 4-byte big-endian length prefix followed
//! by that many raw bytes; a text string is a byte string whose bytes are
//! valid UTF-8. The exception record crosses the wire as its fields in
//! order, and decoding an encoded record gives the record back exactly.

use vstd::prelude::*;
use vstd::utf8::{decode_utf8, encode_utf8, valid_utf8};
use crate::kernel_proto::{Exception, ExceptionView};

verus! {

/// Why a read from a buffer failed.
#[derive(Debug, PartialEq, Eq, Structural)]
pub enum ReadError {
    /// The buffer ends before the value does.
    UnexpectedEnd,
    /// A text string's bytes are not valid UTF-8.
    InvalidUtf8,
}

/// A buffer being consumed front to back.
pub struct Reader {
    pub data: Vec<u8>,
    pub pos: usize,
}

impl Reader {
    /// The position never passes the end of the buffer.
    pub open spec fn wf(self) -> bool {
        self.pos <= self.data@.len()
    }

    /// A reader standing at the front of the given buffer.
    pub fn new(data: Vec<u8>) -> (r: Reader)
        ensures
            r.wf(),
            r.data == data,
            r.pos == 0,
    {
        Reader { data, pos: 0 }
    }
}

// ---------------------------------------------------------------------------
// The encoding, as mathematical functions on sequences.
// ---------------------------------------------------------------------------

/// A `u8` on the wire: the byte itself.
pub open spec fn enc_u8(v: u8) -> Seq<u8> {
    seq![v]
}

/// A `u16` on the wire: two bytes, big-endian.
pub open spec fn enc_u16(v: u16) -> Seq<u8> {
    seq![(v >> 8) as u8, v as u8]
}

/// A `u32` on the wire: four bytes, big-endian.
pub open spec fn enc_u32(v: u32) -> Seq<u8> {
    seq![(v >> 24) as u8, (v >> 16) as u8, (v >> 8) as u8, v as u8]
}

/// A `u64` on the wire: eight bytes, big-endian.
pub open spec fn enc_u64(v: u64) -> Seq<u8> {
    seq![
        (v >> 56) as u8,
        (v >> 48) as u8,
        (v >> 40) as u8,
        (v >> 32) as u8,
        (v >> 24) as u8,
        (v >> 16) as u8,
        (v >> 8) as u8,
        v as u8,
    ]
}

/// A byte string on the wire: its length as a big-endian `u32`, then its
/// bytes.
pub open spec fn enc_bytes(b: Seq<u8>) -> Seq<u8>
    recommends
        b.len() <= u32::MAX,
{
    enc_u32(b.len() as u32) + b
}

/// A text string on the wire: its UTF-8 bytes as a byte string.
pub open spec fn enc_str(s: Seq<char>) -> Seq<u8>
    recommends
        encode_utf8(s).len() <= u32::MAX,
{
    enc_bytes(encode_utf8(s))
}

/// An exception record on the wire: its fields in order.
pub open spec fn enc_exception(e: ExceptionView) -> Seq<u8>
    recommends
        exception_wf(e),
{
    enc_bytes(e.name) + enc_bytes(e.file) + enc_u32(e.line) + enc_u32(e.column) + enc_bytes(
        e.function,
    ) + enc_bytes(e.message) + enc_u64(e.param[0]) + enc_u64(e.param[1]) + enc_u64(e.param[2])
}

/// An exception record that fits the framing: each text field's length fits
/// the 4-byte prefix, and there are exactly three parameters.
pub open spec fn exception_wf(e: ExceptionView) -> bool {
    &&& e.name.len() <= u32::MAX
    &&& e.file.len() <= u32::MAX
    &&& e.function.len() <= u32::MAX
    &&& e.message.len() <= u32::MAX
    &&& e.param.len() == 3
}

// ---------------------------------------------------------------------------
// The decoding: each function yields the value and the position after it,
// or nothing where the buffer ends too soon.
// ---------------------------------------------------------------------------

/// The `u16` held by two big-endian bytes.
pub open spec fn be16(b: Seq<u8>) -> u16
    recommends
        b.len() == 2,
{
    (((b[0] as u16) << 8) | (b[1] as u16)) as u16
}

/// The `u32` held by four big-endian bytes.
pub open spec fn be32(b: Seq<u8>) -> u32
    recommends
        b.len() == 4,
{
    (((b[0] as u32) << 24) | ((b[1] as u32) << 16) | ((b[2] as u32) << 8) | (b[3] as u32)) as u32
}

/// The `u64` held by eight big-endian bytes.
pub open spec fn be64(b: Seq<u8>) -> u64
    recommends
        b.len() == 8,
{
    (((b[0] as u64) << 56) | ((b[1] as u64) << 48) | ((b[2] as u64) << 40) | ((b[3] as u64) << 32)
        | ((b[4] as u64) << 24) | ((b[5] as u64) << 16) | ((b[6] as u64) << 8) | (b[7] as u64)) as u64
}

/// Decodes a `u8` at `pos`.
pub open spec fn dec_u8(data: Seq<u8>, pos: int) -> Option<(u8, int)> {
    if 0 <= pos && pos + 1 <= data.len() {
        Some((data[pos], pos + 1))
    } else {
        None
    }
}

/// Decodes a big-endian `u16` at `pos`.
pub open spec fn dec_u16(data: Seq<u8>, pos: int) -> Option<(u16, int)> {
    if 0 <= pos && pos + 2 <= data.len() {
        Some((be16(data.subrange(pos, pos + 2)), pos + 2))
    } else {
        None
    }
}

/// Decodes a big-endian `u32` at `pos`.
pub open spec fn dec_u32(data: Seq<u8>, pos: int) -> Option<(u32, int)> {
    if 0 <= pos && pos + 4 <= data.len() {
        Some((be32(data.subrange(pos, pos + 4)), pos + 4))
    } else {
        None
    }
}

/// Decodes a big-endian `u64` at `pos`.
pub open spec fn dec_u64(data: Seq<u8>, pos: int) -> Option<(u64, int)> {
    if 0 <= pos && pos + 8 <= data.len() {
        Some((be64(data.subrange(pos, pos + 8)), pos + 8))
    } else {
        None
    }
}

/// Decodes a length-prefixed byte string at `pos`.
pub open spec fn dec_bytes(data: Seq<u8>, pos: int) -> Option<(Seq<u8>, int)> {
    match dec_u32(data, pos) {
        None => None,
        Some((n, p)) => if p + n <= data.len() {
            Some((data.subrange(p, p + n), p + n))
        } else {
            None
        },
    }
}

/// Decodes an exception record at `pos`: fields in order, as encoded.
pub open spec fn dec_exception(data: Seq<u8>, pos: int) -> Option<(ExceptionView, int)> {
    match dec_bytes(data, pos) {
        None => None,
        Some((name, p1)) => match dec_bytes(data, p1) {
            None => None,
            Some((file, p2)) => match dec_u32(data, p2) {
                None => None,
                Some((line, p3)) => match dec_u32(data, p3) {
                    None => None,
                    Some((column, p4)) => match dec_bytes(data, p4) {
                        None => None,
                        Some((function, p5)) => match dec_bytes(data, p5) {
                            None => None,
                            Some((message, p6)) => match dec_u64(data, p6) {
                                None => None,
                                Some((param0, p7)) => match dec_u64(data, p7) {
                                    None => None,
                                    Some((param1, p8)) => match dec_u64(data, p8) {
                                        None => None,
                                        Some((param2, p9)) => Some(
                                            (
                                                ExceptionView {
                                                    name,
                                                    file,
                                                    line,
                                                    column,
                                                    function,
                                                    message,
                                                    param: seq![param0, param1, param2],
                                                },
                                                p9,
                                            ),
                                        ),
                                    },
                                },
                            },
                        },
                    },
                },
            },
        },
    }
}

// ---------------------------------------------------------------------------
// Round trips: decoding what was encoded gives the value back.
// ---------------------------------------------------------------------------

/// The big-endian bytes of a `u32` decode to it.
proof fn lemma_be32_enc(v: u32)
    ensures
        be32(enc_u32(v)) == v,
{
    assert((((((v >> 24) as u8) as u32) << 24) | ((((v >> 16) as u8) as u32) << 16) | ((((v
        >> 8) as u8) as u32) << 8) | (((v as u8)) as u32)) as u32 == v) by (bit_vector);
}

/// The big-endian bytes of a `u16` decode to it.
proof fn lemma_be16_enc(v: u16)
    ensures
        be16(enc_u16(v)) == v,
{
    assert((((((v >> 8) as u8) as u16) << 8) | (((v as u8)) as u16)) as u16 == v) by (bit_vector);
}

/// The big-endian bytes of a `u64` decode to it.
proof fn lemma_be64_enc(v: u64)
    ensures
        be64(enc_u64(v)) == v,
{
    assert((((((v >> 56) as u8) as u64) << 56) | ((((v >> 48) as u8) as u64) << 48) | ((((v
        >> 40) as u8) as u64) << 40) | ((((v >> 32) as u8) as u64) << 32) | ((((v
        >> 24) as u8) as u64) << 24) | ((((v >> 16) as u8) as u64) << 16) | ((((v
        >> 8) as u8) as u64) << 8) | (((v as u8)) as u64)) as u64 == v) by (bit_vector);
}

/// A `u16` encoded at `pos` decodes there to itself.
pub proof fn lemma_dec_u16_enc(data: Seq<u8>, pos: int, v: u16)
    requires
        0 <= pos,
        pos + 2 <= data.len(),
        data.subrange(pos, pos + 2) == enc_u16(v),
    ensures
        dec_u16(data, pos) == Some((v, pos + 2)),
{
    lemma_be16_enc(v);
}

/// A `u32` encoded at `pos` decodes there to itself.
pub proof fn lemma_dec_u32_enc(data: Seq<u8>, pos: int, v: u32)
    requires
        0 <= pos,
        pos + 4 <= data.len(),
        data.subrange(pos, pos + 4) == enc_u32(v),
    ensures
        dec_u32(data, pos) == Some((v, pos + 4)),
{
    lemma_be32_enc(v);
}

/// A `u64` encoded at `pos` decodes there to itself.
pub proof fn lemma_dec_u64_enc(data: Seq<u8>, pos: int, v: u64)
    requires
        0 <= pos,
        pos + 8 <= data.len(),
        data.subrange(pos, pos + 8) == enc_u64(v),
    ensures
        dec_u64(data, pos) == Some((v, pos + 8)),
{
    lemma_be64_enc(v);
}

/// A byte string encoded at `pos` decodes there to itself.
pub proof fn lemma_dec_bytes_enc(data: Seq<u8>, pos: int, b: Seq<u8>)
    requires
        0 <= pos,
        b.len() <= u32::MAX,
        pos + 4 + b.len() <= data.len(),
        data.subrange(pos, pos + 4 + b.len()) == enc_bytes(b),
    ensures
        dec_bytes(data, pos) == Some((b, pos + 4 + b.len())),
{
    let n = b.len() as u32;
    assert(data.subrange(pos, pos + 4) =~= enc_u32(n));
    lemma_dec_u32_enc(data, pos, n);
    assert forall|i: int| 0 <= i < b.len() implies data.subrange(pos + 4, pos + 4 + b.len() as int)[i]
        == b[i] by {
        assert(data.subrange(pos, pos + 4 + b.len() as int)[4 + i] == enc_bytes(b)[4 + i]);
    }
    assert(data.subrange(pos + 4, pos + 4 + b.len() as int) =~= b);
}

/// A text string encoded at `pos` decodes there to its own characters: its
/// bytes come back whole, they are valid UTF-8, and they decode to the
/// characters that were encoded.
pub proof fn lemma_dec_str_enc(data: Seq<u8>, pos: int, s: Seq<char>)
    requires
        0 <= pos,
        encode_utf8(s).len() <= u32::MAX,
        pos + enc_str(s).len() <= data.len(),
        data.subrange(pos, pos + enc_str(s).len() as int) == enc_str(s),
    ensures
        dec_bytes(data, pos) == Some((encode_utf8(s), pos + enc_str(s).len() as int)),
        valid_utf8(encode_utf8(s)),
        decode_utf8(encode_utf8(s)) == s,
{
    lemma_dec_bytes_enc(data, pos, encode_utf8(s));
    vstd::utf8::encode_utf8_valid_utf8(s);
    vstd::utf8::encode_utf8_decode_utf8(s);
}

/// Encoding an exception record and decoding at its start gives back the
/// record and consumes exactly its bytes, whatever stands before or after
/// it in the buffer.
#[verifier::rlimit(60)]
pub proof fn lemma_exception_round_trip(e: ExceptionView, prefix: Seq<u8>, rest: Seq<u8>)
    requires
        exception_wf(e),
    ensures
        dec_exception(prefix + enc_exception(e) + rest, prefix.len() as int) == Some(
            (e, prefix.len() + enc_exception(e).len() as int),
        ),
{
    let data = prefix + enc_exception(e) + rest;
    let p0 = prefix.len() as int;
    let p1 = p0 + 4 + e.name.len();
    let p2 = p1 + 4 + e.file.len();
    let p3 = p2 + 4;
    let p4 = p3 + 4;
    let p5 = p4 + 4 + e.function.len();
    let p6 = p5 + 4 + e.message.len();
    let p7 = p6 + 8;
    let p8 = p7 + 8;
    let p9 = p8 + 8;
    assert(p9 == p0 + enc_exception(e).len());

    assert(data.subrange(p0, p1) =~= enc_bytes(e.name));
    lemma_dec_bytes_enc(data, p0, e.name);
    assert(data.subrange(p1, p2) =~= enc_bytes(e.file));
    lemma_dec_bytes_enc(data, p1, e.file);
    assert(data.subrange(p2, p3) =~= enc_u32(e.line));
    lemma_dec_u32_enc(data, p2, e.line);
    assert(data.subrange(p3, p4) =~= enc_u32(e.column));
    lemma_dec_u32_enc(data, p3, e.column);
    assert(data.subrange(p4, p5) =~= enc_bytes(e.function));
    lemma_dec_bytes_enc(data, p4, e.function);
    assert(data.subrange(p5, p6) =~= enc_bytes(e.message));
    lemma_dec_bytes_enc(data, p5, e.message);
    assert(data.subrange(p6, p7) =~= enc_u64(e.param[0]));
    lemma_dec_u64_enc(data, p6, e.param[0]);
    assert(data.subrange(p7, p8) =~= enc_u64(e.param[1]));
    lemma_dec_u64_enc(data, p7, e.param[1]);
    assert(data.subrange(p8, p9) =~= enc_u64(e.param[2]));
    lemma_dec_u64_enc(data, p8, e.param[2]);

    let decoded = dec_exception(data, p0)->Some_0.0;
    assert(decoded.param =~= e.param);
    assert(decoded == e);
}

// ---------------------------------------------------------------------------
// Writing.
// ---------------------------------------------------------------------------

/// Appends a `u8`.
pub fn write_u8(writer: &mut Vec<u8>, value: u8)
    ensures
        final(writer)@ == old(writer)@ + enc_u8(value),
{
    writer.push(value);
    proof {
        assert(writer@ =~= old(writer)@ + enc_u8(value));
    }
}

/// Appends a `u16`, big-endian.
pub fn write_u16(writer: &mut Vec<u8>, value: u16)
    ensures
        final(writer)@ == old(writer)@ + enc_u16(value),
{
    writer.push((value >> 8) as u8);
    writer.push(value as u8);
    proof {
        assert(writer@ =~= old(writer)@ + enc_u16(value));
    }
}

/// Appends a `u32`, big-endian.
pub fn write_u32(writer: &mut Vec<u8>, value: u32)
    ensures
        final(writer)@ == old(writer)@ + enc_u32(value),
{
    writer.push((value >> 24) as u8);
    writer.push((value >> 16) as u8);
    writer.push((value >> 8) as u8);
    writer.push(value as u8);
    proof {
        assert(writer@ =~= old(writer)@ + enc_u32(value));
    }
}

/// Appends a `u64`, big-endian.
pub fn write_u64(writer: &mut Vec<u8>, value: u64)
    ensures
        final(writer)@ == old(writer)@ + enc_u64(value),
{
    writer.push((value >> 56) as u8);
    writer.push((value >> 48) as u8);
    writer.push((value >> 40) as u8);
    writer.push((value >> 32) as u8);
    writer.push((value >> 24) as u8);
    writer.push((value >> 16) as u8);
    writer.push((value >> 8) as u8);
    writer.push(value as u8);
    proof {
        assert(writer@ =~= old(writer)@ + enc_u64(value));
    }
}

/// Appends a byte string: length prefix, then the bytes.
pub fn write_bytes(writer: &mut Vec<u8>, value: &[u8])
    requires
        value@.len() <= u32::MAX,
    ensures
        final(writer)@ == old(writer)@ + enc_bytes(value@),
{
    let ghost base = writer@;
    let n = value.len();
    write_u32(writer, n as u32);
    let ghost mid = writer@;
    let mut i: usize = 0;
    while i < n
        invariant
            n == value@.len(),
            i <= n,
            writer@ == mid + value@.subrange(0, i as int),
            mid == base + enc_u32(n as u32),
        decreases n - i,
    {
        writer.push(value[i]);
        proof {
            assert(mid + value@.subrange(0, i as int) + seq![value@[i as int]] =~= mid
                + value@.subrange(0, i as int + 1));
        }
        i = i + 1;
    }
    proof {
        assert(value@.subrange(0, n as int) =~= value@);
        assert(writer@ =~= base + enc_bytes(value@));
    }
}

/// Appends a text string: its UTF-8 bytes as a byte string.
pub fn write_string(writer: &mut Vec<u8>, value: &str)
    requires
        encode_utf8(value@).len() <= u32::MAX,
    ensures
        final(writer)@ == old(writer)@ + enc_str(value@),
{
    write_bytes(writer, value.as_bytes());
}

/// Appends an exception record: its fields in order.
pub fn write_exception(writer: &mut Vec<u8>, e: &Exception)
    requires
        exception_wf(e@),
    ensures
        final(writer)@ == old(writer)@ + enc_exception(e@),
{
    write_bytes(writer, e.name.as_slice());
    write_bytes(writer, e.file.as_slice());
    write_u32(writer, e.line);
    write_u32(writer, e.column);
    write_bytes(writer, e.function.as_slice());
    write_bytes(writer, e.message.as_slice());
    write_u64(writer, e.param[0]);
    write_u64(writer, e.param[1]);
    write_u64(writer, e.param[2]);
    proof {
        assert(writer@ =~= old(writer)@ + enc_exception(e@));
    }
}

// ---------------------------------------------------------------------------
// Reading.
// ---------------------------------------------------------------------------

/// Reads a `u8`.
pub fn read_u8(reader: &mut Reader) -> (r: Result<u8, ReadError>)
    requires
        old(reader).wf(),
    ensures
        final(reader).wf(),
        final(reader).data == old(reader).data,
        match dec_u8(old(reader).data@, old(reader).pos as int) {
            Some((v, p)) => r == Ok::<u8, ReadError>(v) && final(reader).pos == p,
            None => r == Err::<u8, ReadError>(ReadError::UnexpectedEnd) && final(reader).pos
                == old(reader).pos,
        },
{
    if reader.data.len() - reader.pos >= 1 {
        let v = reader.data[reader.pos];
        reader.pos = reader.pos + 1;
        Ok(v)
    } else {
        Err(ReadError::UnexpectedEnd)
    }
}

/// Reads a big-endian `u16`.
pub fn read_u16(reader: &mut Reader) -> (r: Result<u16, ReadError>)
    requires
        old(reader).wf(),
    ensures
        final(reader).wf(),
        final(reader).data == old(reader).data,
        match dec_u16(old(reader).data@, old(reader).pos as int) {
            Some((v, p)) => r == Ok::<u16, ReadError>(v) && final(reader).pos == p,
            None => r == Err::<u16, ReadError>(ReadError::UnexpectedEnd) && final(reader).pos
                == old(reader).pos,
        },
{
    if reader.data.len() - reader.pos >= 2 {
        let b0 = reader.data[reader.pos];
        let b1 = reader.data[reader.pos + 1];
        reader.pos = reader.pos + 2;
        let v = ((b0 as u16) << 8) | (b1 as u16);
        proof {
            let sub = old(reader).data@.subrange(
                old(reader).pos as int,
                old(reader).pos as int + 2,
            );
            assert(sub[0] == b0 && sub[1] == b1);
        }
        Ok(v)
    } else {
        Err(ReadError::UnexpectedEnd)
    }
}

/// Reads a big-endian `u32`.
pub fn read_u32(reader: &mut Reader) -> (r: Result<u32, ReadError>)
    requires
        old(reader).wf(),
    ensures
        final(reader).wf(),
        final(reader).data == old(reader).data,
        match dec_u32(old(reader).data@, old(reader).pos as int) {
            Some((v, p)) => r == Ok::<u32, ReadError>(v) && final(reader).pos == p,
            None => r == Err::<u32, ReadError>(ReadError::UnexpectedEnd) && final(reader).pos
                == old(reader).pos,
        },
{
    if reader.data.len() - reader.pos >= 4 {
        let b0 = reader.data[reader.pos];
        let b1 = reader.data[reader.pos + 1];
        let b2 = reader.data[reader.pos + 2];
        let b3 = reader.data[reader.pos + 3];
        reader.pos = reader.pos + 4;
        let v = ((b0 as u32) << 24) | ((b1 as u32) << 16) | ((b2 as u32) << 8) | (b3 as u32);
        proof {
            let sub = old(reader).data@.subrange(
                old(reader).pos as int,
                old(reader).pos as int + 4,
            );
            assert(sub[0] == b0 && sub[1] == b1 && sub[2] == b2 && sub[3] == b3);
        }
        Ok(v)
    } else {
        Err(ReadError::UnexpectedEnd)
    }
}

/// Reads a big-endian `u64`.
pub fn read_u64(reader: &mut Reader) -> (r: Result<u64, ReadError>)
    requires
        old(reader).wf(),
    ensures
        final(reader).wf(),
        final(reader).data == old(reader).data,
        match dec_u64(old(reader).data@, old(reader).pos as int) {
            Some((v, p)) => r == Ok::<u64, ReadError>(v) && final(reader).pos == p,
            None => r == Err::<u64, ReadError>(ReadError::UnexpectedEnd) && final(reader).pos
                == old(reader).pos,
        },
{
    if reader.data.len() - reader.pos >= 8 {
        let b0 = reader.data[reader.pos];
        let b1 = reader.data[reader.pos + 1];
        let b2 = reader.data[reader.pos + 2];
        let b3 = reader.data[reader.pos + 3];
        let b4 = reader.data[reader.pos + 4];
        let b5 = reader.data[reader.pos + 5];
        let b6 = reader.data[reader.pos + 6];
        let b7 = reader.data[reader.pos + 7];
        reader.pos = reader.pos + 8;
        let v = ((b0 as u64) << 56) | ((b1 as u64) << 48) | ((b2 as u64) << 40) | ((b3 as u64)
            << 32) | ((b4 as u64) << 24) | ((b5 as u64) << 16) | ((b6 as u64) << 8) | (b7 as u64);
        proof {
            let sub = old(reader).data@.subrange(
                old(reader).pos as int,
                old(reader).pos as int + 8,
            );
            assert(sub[0] == b0 && sub[1] == b1 && sub[2] == b2 && sub[3] == b3);
            assert(sub[4] == b4 && sub[5] == b5 && sub[6] == b6 && sub[7] == b7);
        }
        Ok(v)
    } else {
        Err(ReadError::UnexpectedEnd)
    }
}

/// Reads a length-prefixed byte string.
pub fn read_bytes(reader: &mut Reader) -> (r: Result<Vec<u8>, ReadError>)
    requires
        old(reader).wf(),
    ensures
        final(reader).wf(),
        final(reader).data == old(reader).data,
        match dec_bytes(old(reader).data@, old(reader).pos as int) {
            Some((b, p)) => (r matches Ok(v) && v@ == b) && final(reader).pos == p,
            None => r == Err::<Vec<u8>, ReadError>(ReadError::UnexpectedEnd)
                && final(reader).pos == old(reader).pos,
        },
{
    let pos0 = reader.pos;
    let n = match read_u32(reader) {
        Ok(n) => n,
        Err(e) => {
            return Err(e);
        },
    };
    let n = n as usize;
    if reader.data.len() - reader.pos < n {
        reader.pos = pos0;
        return Err(ReadError::UnexpectedEnd);
    }
    let start = reader.pos;
    let mut value: Vec<u8> = Vec::new();
    let mut i: usize = 0;
    while i < n
        invariant
            reader.wf(),
            reader.data@.len() <= usize::MAX,
            start + n <= reader.data@.len(),
            i <= n,
            value@ == reader.data@.subrange(start as int, start as int + i as int),
        decreases n - i,
    {
        value.push(reader.data[start + i]);
        proof {
            assert(reader.data@.subrange(start as int, start as int + i as int) + seq![
                reader.data@[start as int + i as int],
            ] =~= reader.data@.subrange(start as int, start as int + i as int + 1));
        }
        i = i + 1;
    }
    reader.pos = start + n;
    Ok(value)
}

/// Relies on `String::from_utf8`: it succeeds exactly on valid UTF-8 and
/// yields the characters those bytes encode.
#[verifier::external_body]
fn string_from_utf8(bytes: Vec<u8>) -> (r: Option<String>)
    ensures
        r is Some <==> valid_utf8(bytes@),
        r matches Some(s) ==> s@ == decode_utf8(bytes@),
{
    String::from_utf8(bytes).ok()
}

/// Reads a text string: a byte string whose bytes must be valid UTF-8.
pub fn read_string(reader: &mut Reader) -> (r: Result<String, ReadError>)
    requires
        old(reader).wf(),
    ensures
        final(reader).wf(),
        final(reader).data == old(reader).data,
        match dec_bytes(old(reader).data@, old(reader).pos as int) {
            None => r == Err::<String, ReadError>(ReadError::UnexpectedEnd) && final(reader).pos
                == old(reader).pos,
            Some((b, p)) => if valid_utf8(b) {
                (r matches Ok(s) && s@ == decode_utf8(b)) && final(reader).pos == p
            } else {
                r == Err::<String, ReadError>(ReadError::InvalidUtf8)
                    && final(reader).pos == old(reader).pos
            },
        },
{
    let pos0 = reader.pos;
    let bytes = match read_bytes(reader) {
        Ok(b) => b,
        Err(e) => {
            return Err(e);
        },
    };
    match string_from_utf8(bytes) {
        Some(s) => Ok(s),
        None => {
            reader.pos = pos0;
            Err(ReadError::InvalidUtf8)
        },
    }
}

/// Reads an exception record: its fields in order.
pub fn read_exception(reader: &mut Reader) -> (r: Result<Exception, ReadError>)
    requires
        old(reader).wf(),
    ensures
        final(reader).wf(),
        final(reader).data == old(reader).data,
        match dec_exception(old(reader).data@, old(reader).pos as int) {
            Some((e, p)) => (r matches Ok(x) && x@ == e) && final(reader).pos == p,
            None => r == Err::<Exception, ReadError>(ReadError::UnexpectedEnd)
                && final(reader).pos == old(reader).pos,
        },
{
    let pos0 = reader.pos;
    let name = match read_bytes(reader) {
        Ok(v) => v,
        Err(_) => {
            reader.pos = pos0;
            return Err(ReadError::UnexpectedEnd);
        },
    };
    let file = match read_bytes(reader) {
        Ok(v) => v,
        Err(_) => {
            reader.pos = pos0;
            return Err(ReadError::UnexpectedEnd);
        },
    };
    let line = match read_u32(reader) {
        Ok(v) => v,
        Err(_) => {
            reader.pos = pos0;
            return Err(ReadError::UnexpectedEnd);
        },
    };
    let column = match read_u32(reader) {
        Ok(v) => v,
        Err(_) => {
            reader.pos = pos0;
            return Err(ReadError::UnexpectedEnd);
        },
    };
    let function = match read_bytes(reader) {
        Ok(v) => v,
        Err(_) => {
            reader.pos = pos0;
            return Err(ReadError::UnexpectedEnd);
        },
    };
    let message = match read_bytes(reader) {
        Ok(v) => v,
        Err(_) => {
            reader.pos = pos0;
            return Err(ReadError::UnexpectedEnd);
        },
    };
    let param0 = match read_u64(reader) {
        Ok(v) => v,
        Err(_) => {
            reader.pos = pos0;
            return Err(ReadError::UnexpectedEnd);
        },
    };
    let param1 = match read_u64(reader) {
        Ok(v) => v,
        Err(_) => {
            reader.pos = pos0;
            return Err(ReadError::UnexpectedEnd);
        },
    };
    let param2 = match read_u64(reader) {
        Ok(v) => v,
        Err(_) => {
            reader.pos = pos0;
            return Err(ReadError::UnexpectedEnd);
        },
    };
    let e = Exception { name, file, line, column, function, message, param: [param0, param1, param2] };
    proof {
        let decoded = dec_exception(old(reader).data@, old(reader).pos as int)->Some_0.0;
        assert(e@.param =~= decoded.param);
    }
    Ok(e)
}

} // verus!
