//! Frames of the multiplexer protocol. A frame is three LEB128 numbers and a
//! payload: the tagged length, the serial number, the identifier of the
//! payload's kind, then the payload's bytes. The tagged length counts the
//! encodings of serial and identifier and the payload; its highest bit says
//! whether the payload is compressed.

use crate::varint::{
    lemma_varint_len, lemma_varint_read_extends, lemma_varint_read_fits,
    lemma_varint_round_trip, lemma_varint_u64, read_u64, tail, varint, varint_len, varint_read,
    write_unsigned, VarintError, VarintRead,
};
use crate::server::pdu::{DecodedPdu, Pdu, PduKind};
use vstd::prelude::*;

verus! {

/// The error type of `std::io`, as zstd hands it out. Nothing is known of a
/// value of it.
#[verifier::external_type_specification]
#[verifier::external_body]
pub struct ExIoError(std::io::Error);

/// The bit of the tagged length that marks a compressed payload.
pub const COMPRESSED_MASK: u64 = 0x8000_0000_0000_0000;

/// What a frame holds.
pub struct Frame {
    pub ident: u64,
    pub serial: u64,
    pub data: Seq<u8>,
    pub is_compressed: bool,
}

/// A frame as it was read.
#[derive(Debug)]
pub struct Decoded {
    pub ident: u64,
    pub serial: u64,
    pub data: Vec<u8>,
    pub is_compressed: bool,
}

impl View for Decoded {
    type V = Frame;

    open spec fn view(&self) -> Frame {
        Frame {
            ident: self.ident,
            serial: self.serial,
            data: self.data@,
            is_compressed: self.is_compressed,
        }
    }
}

/// Why a frame could not be written.
#[derive(Clone, Copy, Debug, PartialEq, Eq, Structural)]
pub enum EncodeError {
    /// The length does not fit in the 63 bits that the tagged length has for it.
    TooLarge,
}

/// Why a frame could not be read.
#[derive(Clone, Copy, Debug, PartialEq, Eq, Structural)]
pub enum DecodeError {
    /// The input ends inside the header or before the payload does.
    UnexpectedEof,
    /// A number of the header does not fit in 64 bits.
    Overflow,
    /// The length is smaller than the header that it has to cover.
    BadLength,
}

/// The length that a frame declares: the payload and the encodings of
/// identifier and serial.
pub open spec fn frame_len(ident: u64, serial: u64, data_len: nat) -> nat {
    data_len + varint_len(ident as nat) + varint_len(serial as nat)
}

/// The length with the compression bit put on.
pub open spec fn tagged_len(len: nat, is_compressed: bool) -> nat {
    if is_compressed {
        len + COMPRESSED_MASK as nat
    } else {
        len
    }
}

/// Whether a frame with such a payload can be written.
pub open spec fn frame_fits(ident: u64, serial: u64, data_len: nat) -> bool {
    frame_len(ident, serial, data_len) < COMPRESSED_MASK
}

/// The bytes of a frame.
pub open spec fn frame_bytes(f: Frame) -> Seq<u8> {
    varint(tagged_len(frame_len(f.ident, f.serial, f.data.len()), f.is_compressed)) + varint(
        f.serial as nat,
    ) + varint(f.ident as nat) + f.data
}

/// Maps the two ways in which a number can fail to read onto the frame's
/// errors.
pub open spec fn varint_failure(r: VarintRead) -> DecodeError {
    if r is Overflow {
        DecodeError::Overflow
    } else {
        DecodeError::UnexpectedEof
    }
}

/// The header of a frame: its three numbers, and where the payload begins.
pub struct Header {
    pub tagged: nat,
    pub serial: nat,
    pub ident: nat,
    pub at: nat,
}

impl Header {
    /// Whether the highest bit of the tagged length is set.
    pub open spec fn is_compressed(self) -> bool {
        self.tagged >= COMPRESSED_MASK
    }

    /// The length that the header declares: the tagged length without its
    /// highest bit.
    pub open spec fn declared_len(self) -> nat {
        if self.is_compressed() {
            (self.tagged - COMPRESSED_MASK) as nat
        } else {
            self.tagged
        }
    }

    /// What of the declared length the header itself takes: the identifier
    /// and the serial, each at the length of its shortest encoding.
    pub open spec fn head_len(self) -> nat {
        varint_len(self.ident) + varint_len(self.serial)
    }

    /// Where the payload ends.
    pub open spec fn end(self) -> nat {
        (self.at + (self.declared_len() - self.head_len())) as nat
    }
}

/// Reads the three numbers at the front of `s`.
pub open spec fn parse_header(s: Seq<u8>) -> Result<Header, DecodeError> {
    match varint_read(s) {
        VarintRead::Value { value: tagged, len: n1 } => match varint_read(tail(s, n1 as int)) {
            VarintRead::Value { value: serial, len: n2 } => match varint_read(
                tail(s, (n1 + n2) as int),
            ) {
                VarintRead::Value { value: ident, len: n3 } => Ok(
                    Header { tagged, serial, ident, at: n1 + n2 + n3 },
                ),
                r => Err(varint_failure(r)),
            },
            r => Err(varint_failure(r)),
        },
        r => Err(varint_failure(r)),
    }
}

/// Reads one frame from the front of `s`: the frame, and how many bytes of
/// `s` it took.
pub open spec fn parse_frame(s: Seq<u8>) -> Result<(Frame, nat), DecodeError> {
    match parse_header(s) {
        Err(e) => Err(e),
        Ok(h) => if h.declared_len() < h.head_len() {
            Err(DecodeError::BadLength)
        } else if s.len() < h.end() {
            Err(DecodeError::UnexpectedEof)
        } else {
            Ok(
                (
                    Frame {
                        ident: h.ident as u64,
                        serial: h.serial as u64,
                        data: s.subrange(h.at as int, h.end() as int),
                        is_compressed: h.is_compressed(),
                    },
                    h.end(),
                ),
            )
        },
    }
}

/// How many bytes are still missing from the frame that `s` begins. While
/// the header is not complete that is one byte, since only the header says
/// how long the frame is; after that it is what the payload still lacks.
/// A header that cannot be right is an error however many bytes follow.
pub open spec fn frame_wants(s: Seq<u8>) -> Result<nat, DecodeError> {
    match parse_header(s) {
        Err(DecodeError::UnexpectedEof) => Ok(1),
        Err(e) => Err(e),
        Ok(h) => if h.declared_len() < h.head_len() {
            Err(DecodeError::BadLength)
        } else if s.len() < h.end() {
            Ok((h.end() - s.len()) as nat)
        } else {
            Ok(0)
        },
    }
}

/// Three numbers written one after the other read back one after the other.
proof fn lemma_read_header(a: u64, b: u64, c: u64, rest: Seq<u8>)
    ensures
        ({
            let s = varint(a as nat) + varint(b as nat) + varint(c as nat) + rest;
            let la = varint_len(a as nat);
            let lb = varint_len(b as nat);
            let lc = varint_len(c as nat);
            &&& varint_read(s) == (VarintRead::Value { value: a as nat, len: la })
            &&& varint_read(tail(s, la as int)) == (VarintRead::Value { value: b as nat, len: lb })
            &&& varint_read(tail(s, (la + lb) as int)) == (VarintRead::Value {
                value: c as nat,
                len: lc,
            })
            &&& s.len() == la + lb + lc + rest.len()
            &&& s.subrange((la + lb + lc) as int, s.len() as int) == rest
        }),
{
    let ea = varint(a as nat);
    let eb = varint(b as nat);
    let ec = varint(c as nat);
    let s = ea + eb + ec + rest;
    lemma_varint_len(a as nat);
    lemma_varint_len(b as nat);
    lemma_varint_len(c as nat);
    assert(varint_read(s) == (VarintRead::Value { value: a as nat, len: ea.len() })) by {
        assert(s =~= ea + (eb + ec + rest));
        lemma_varint_round_trip(a, eb + ec + rest);
    }
    assert(varint_read(tail(s, ea.len() as int)) == (VarintRead::Value {
        value: b as nat,
        len: eb.len(),
    })) by {
        assert(tail(s, ea.len() as int) =~= eb + (ec + rest));
        lemma_varint_round_trip(b, ec + rest);
    }
    assert(varint_read(tail(s, (ea.len() + eb.len()) as int)) == (VarintRead::Value {
        value: c as nat,
        len: ec.len(),
    })) by {
        assert(tail(s, (ea.len() + eb.len()) as int) =~= ec + rest);
        lemma_varint_round_trip(c, rest);
    }
    assert(s.subrange((ea.len() + eb.len() + ec.len()) as int, s.len() as int) =~= rest);
}

/// A frame that was written reads back as it was: for every identifier,
/// serial, payload and compression flag whose frame can be written, parsing
/// its bytes gives the same four values and takes exactly those bytes,
/// whatever follows them.
pub proof fn frame_round_trip(f: Frame, rest: Seq<u8>)
    requires
        frame_fits(f.ident, f.serial, f.data.len()),
    ensures
        parse_frame(frame_bytes(f) + rest) matches Ok((g, taken)) && g == f && taken
            == frame_bytes(f).len(),
{
    let len = frame_len(f.ident, f.serial, f.data.len());
    let tagged = tagged_len(len, f.is_compressed) as u64;
    let s = frame_bytes(f) + rest;
    let n1 = varint_len(tagged as nat);
    let n2 = varint_len(f.serial as nat);
    let n3 = varint_len(f.ident as nat);
    let at = n1 + n2 + n3;
    lemma_read_header(tagged, f.serial, f.ident, f.data + rest);
    assert(s =~= varint(tagged as nat) + varint(f.serial as nat) + varint(f.ident as nat) + (f.data
        + rest));
    assert(s.subrange(at as int, (at + f.data.len()) as int) =~= f.data) by {
        assert(s.subrange(at as int, s.len() as int) == f.data + rest);
    }
    assert(frame_bytes(f).len() == at + f.data.len()) by {
        lemma_varint_len(tagged as nat);
        lemma_varint_len(f.serial as nat);
        lemma_varint_len(f.ident as nat);
    }
}

/// The length that a written frame declares is the length that it has: the
/// first number of the frame, without its highest bit, is the byte count of
/// the encoded serial, the encoded identifier and the payload together, which
/// is all that follows that number; and the highest bit is set exactly for a
/// compressed payload.
pub proof fn frame_length_consistent(f: Frame)
    requires
        frame_fits(f.ident, f.serial, f.data.len()),
    ensures
        varint_read(frame_bytes(f)) matches VarintRead::Value { value, len } && {
            let declared = if value >= COMPRESSED_MASK {
                value - COMPRESSED_MASK
            } else {
                value as int
            };
            &&& declared == varint(f.serial as nat).len() + varint(f.ident as nat).len()
                + f.data.len()
            &&& frame_bytes(f).len() == len + declared
            &&& (value >= COMPRESSED_MASK) == f.is_compressed
        },
{
    let len = frame_len(f.ident, f.serial, f.data.len());
    let tagged = tagged_len(len, f.is_compressed);
    let after = varint(f.serial as nat) + varint(f.ident as nat) + f.data;
    lemma_varint_len(f.serial as nat);
    lemma_varint_len(f.ident as nat);
    lemma_varint_len(tagged);
    assert(frame_bytes(f) =~= varint(tagged) + after);
    lemma_varint_round_trip(tagged as u64, after);
}

/// Returns the length of the LEB128 encoding of `value`.
pub fn encoded_length(value: u64) -> (n: usize)
    ensures
        n == varint_len(value as nat),
        1 <= n <= 10,
{
    proof {
        lemma_varint_u64(value);
    }
    leb128::write::unsigned_len(value)
}

/// Encodes a frame. Where the payload is compressed, the highest bit of the
/// length is set to say so. What comes out is, in this order: the tagged
/// length, the serial, the identifier, the payload.
pub fn encode_raw(ident: u64, serial: u64, data: &[u8], is_compressed: bool) -> (r: Result<
    Vec<u8>,
    EncodeError,
>)
    ensures
        match r {
            Ok(bytes) => frame_fits(ident, serial, data@.len()) && bytes@ == frame_bytes(
                Frame { ident, serial, data: data@, is_compressed },
            ),
            Err(e) => !frame_fits(ident, serial, data@.len()) && e == EncodeError::TooLarge,
        },
{
    let head: u64 = (encoded_length(ident) + encoded_length(serial)) as u64;
    let payload: u64 = data.len() as u64;
    if payload >= COMPRESSED_MASK - head {
        return Err(EncodeError::TooLarge);
    }
    let len: u64 = payload + head;
    let masked_len: u64 = if is_compressed {
        len | COMPRESSED_MASK
    } else {
        len
    };
    assert(is_compressed ==> masked_len == len + COMPRESSED_MASK) by (bit_vector)
        requires
            len < COMPRESSED_MASK,
            is_compressed ==> masked_len == len | COMPRESSED_MASK,
    ;
    let mut buffer: Vec<u8> = Vec::new();
    write_unsigned(&mut buffer, masked_len);
    write_unsigned(&mut buffer, serial);
    write_unsigned(&mut buffer, ident);
    let ghost header = buffer@;
    buffer.extend_from_slice(data);
    assert(buffer@ =~= header + data@);
    Ok(buffer)
}

/// The frame's error for a number of the header that did not read.
fn header_error(e: VarintError) -> (r: DecodeError)
    ensures
        r == match e {
            VarintError::Overflow => DecodeError::Overflow,
            VarintError::UnexpectedEof => DecodeError::UnexpectedEof,
        },
{
    match e {
        VarintError::Overflow => DecodeError::Overflow,
        VarintError::UnexpectedEof => DecodeError::UnexpectedEof,
    }
}

/// A header as it was read.
struct RawHeader {
    is_compressed: bool,
    /// The declared length.
    len: u64,
    serial: u64,
    ident: u64,
    /// Where the payload begins.
    at: usize,
}

/// Reads the header at the front of `bytes`.
fn read_header(bytes: &[u8]) -> (r: Result<RawHeader, DecodeError>)
    ensures
        match parse_header(bytes@) {
            Ok(h) => r matches Ok(raw) && raw.is_compressed == h.is_compressed() && raw.len
                == h.declared_len() && raw.serial == h.serial && raw.ident == h.ident && raw.at
                == h.at && h.at <= bytes@.len(),
            Err(e) => r matches Err(got) && got == e,
        },
{
    assert(tail(bytes@, 0) =~= bytes@);
    let (tagged, at_serial) = match read_u64(bytes, 0) {
        Ok(v) => v,
        Err(e) => {
            return Err(header_error(e));
        },
    };
    let (serial, at_ident) = match read_u64(bytes, at_serial) {
        Ok(v) => v,
        Err(e) => {
            return Err(header_error(e));
        },
    };
    let (ident, at) = match read_u64(bytes, at_ident) {
        Ok(v) => v,
        Err(e) => {
            return Err(header_error(e));
        },
    };
    assert(tagged & COMPRESSED_MASK != 0 <==> tagged >= COMPRESSED_MASK) by (bit_vector);
    assert(tagged & !COMPRESSED_MASK == if tagged >= COMPRESSED_MASK {
        (tagged - COMPRESSED_MASK) as u64
    } else {
        tagged
    }) by (bit_vector);
    Ok(
        RawHeader {
            is_compressed: (tagged & COMPRESSED_MASK) != 0,
            len: tagged & !COMPRESSED_MASK,
            serial,
            ident,
            at,
        },
    )
}

/// Decodes the frame at the front of `bytes`, and says how many bytes it
/// took: what follows them is left for the caller.
pub fn decode_raw_prefix(bytes: &[u8]) -> (r: Result<(Decoded, usize), DecodeError>)
    ensures
        match parse_frame(bytes@) {
            Ok((frame, taken)) => r matches Ok((decoded, n)) && decoded@ == frame && n == taken
                && taken <= bytes@.len(),
            Err(e) => r matches Err(got) && got == e,
        },
{
    let header = match read_header(bytes) {
        Ok(h) => h,
        Err(e) => {
            return Err(e);
        },
    };
    let head: u64 = (encoded_length(header.ident) + encoded_length(header.serial)) as u64;
    if header.len < head {
        return Err(DecodeError::BadLength);
    }
    let data_len: u64 = header.len - head;
    if data_len > (bytes.len() - header.at) as u64 {
        return Err(DecodeError::UnexpectedEof);
    }
    let end: usize = header.at + data_len as usize;
    let data = vstd::slice::slice_to_vec(vstd::slice::slice_subrange(bytes, header.at, end));
    Ok(
        (
            Decoded {
                ident: header.ident,
                serial: header.serial,
                data,
                is_compressed: header.is_compressed,
            },
            end,
        ),
    )
}

/// Decodes a frame: the inverse of `encode_raw`.
pub fn decode_raw(bytes: &[u8]) -> (r: Result<Decoded, DecodeError>)
    ensures
        match parse_frame(bytes@) {
            Ok((frame, _)) => r matches Ok(decoded) && decoded@ == frame,
            Err(e) => r matches Err(got) && got == e,
        },
{
    match decode_raw_prefix(bytes) {
        Ok((decoded, _)) => Ok(decoded),
        Err(e) => Err(e),
    }
}

/// A header that is complete stays as it is when more bytes come.
pub proof fn header_is_settled(s: Seq<u8>, more: Seq<u8>)
    requires
        parse_header(s) is Ok,
    ensures
        parse_header(s + more) == parse_header(s),
{
    let n1 = varint_read(s)->len;
    let n2 = varint_read(tail(s, n1 as int))->len;
    lemma_varint_read_fits(s);
    lemma_varint_read_fits(tail(s, n1 as int));
    lemma_varint_read_fits(tail(s, (n1 + n2) as int));
    lemma_varint_read_extends(s, more);
    assert(tail(s + more, n1 as int) =~= tail(s, n1 as int) + more);
    lemma_varint_read_extends(tail(s, n1 as int), more);
    assert(tail(s + more, (n1 + n2) as int) =~= tail(s, (n1 + n2) as int) + more);
    lemma_varint_read_extends(tail(s, (n1 + n2) as int), more);
}

/// Reading what is wanted completes the frame. Where the header is there
/// and the payload lacks `n` bytes, the frame is whole once `n` more bytes
/// have come, whatever they are: it then reads without error, and takes
/// every byte.
pub proof fn wanted_bytes_complete(s: Seq<u8>, more: Seq<u8>)
    requires
        parse_header(s) is Ok,
        more.len() > 0,
        frame_wants(s) == Ok::<nat, DecodeError>(more.len()),
    ensures
        frame_wants(s + more) == Ok::<nat, DecodeError>(0),
        parse_frame(s + more) matches Ok((_, taken)) && taken == (s + more).len(),
{
    header_is_settled(s, more);
}

/// Says how many more bytes to read before `bytes` holds a whole frame:
/// none once `decode_raw` can read it. A reader takes that many, asks
/// again, and so never reads past the end of the frame.
pub fn bytes_wanted(bytes: &[u8]) -> (r: Result<u64, DecodeError>)
    ensures
        match frame_wants(bytes@) {
            Ok(n) => r matches Ok(got) && got == n,
            Err(e) => r matches Err(got) && got == e,
        },
        r matches Ok(n) ==> (n == 0 <==> parse_frame(bytes@) is Ok),
{
    let header = match read_header(bytes) {
        Ok(h) => h,
        Err(DecodeError::UnexpectedEof) => {
            return Ok(1);
        },
        Err(e) => {
            return Err(e);
        },
    };
    let head: u64 = (encoded_length(header.ident) + encoded_length(header.serial)) as u64;
    if header.len < head {
        return Err(DecodeError::BadLength);
    }
    let data_len: u64 = header.len - head;
    let have: u64 = (bytes.len() - header.at) as u64;
    if data_len > have {
        Ok(data_len - have)
    } else {
        Ok(0)
    }
}

/// If the serialized size is larger than this, then we'll consider compressing it
pub const COMPRESS_THRESH: usize = 32;

/// What went wrong with a message on its way in or out.
#[derive(Clone, Copy, Debug, PartialEq, Eq, Structural)]
pub enum CodecError {
    /// `Pdu::Invalid` was to be sent.
    InvalidPdu,
    /// The payload is too long for a frame.
    TooLarge,
    /// zstd could not compress the payload.
    Compress,
    /// zstd could not make sense of a payload that was marked as compressed.
    Decompress,
    /// The frame itself is broken.
    Frame(DecodeError),
}

/// The zstd frame that `zstd::stream::encode_all` makes of `data` at the
/// crate's default level.
pub uninterp spec fn zstd_frame(data: Seq<u8>) -> Seq<u8>;

/// What the zstd frames in `frame` hold, as `zstd::stream::decode_all`
/// unpacks them; `None` for bytes that it can make nothing of.
pub uninterp spec fn zstd_content(frame: Seq<u8>) -> Option<Seq<u8>>;

/// `zstd::stream::encode_all` at `zstd::DEFAULT_COMPRESSION_LEVEL`: where it
/// succeeds, the frame that zstd makes of `data`. The same bytes compress to
/// the same frame every time: the level is fixed, there is no dictionary,
/// and zstd works on one thread.
///
/// Nothing is claimed of when the call succeeds, because the machine has a
/// say in it: memory that zstd asks for in the middle of its work and does
/// not get is reported as an error, not by stopping the program.
#[verifier::external_body]
fn zstd_encode(data: &[u8]) -> (r: Result<Vec<u8>, std::io::Error>)
    ensures
        r matches Ok(frame) ==> frame@ == zstd_frame(data@),
{
    zstd::stream::encode_all(data, zstd::DEFAULT_COMPRESSION_LEVEL)
}

/// `zstd::stream::decode_all`: where it succeeds, the bytes are zstd frames
/// and the result is what they hold. So it fails on every input that is no
/// zstd frame.
///
/// Nothing is claimed of when the call succeeds. On bytes that do unpack it
/// can still fail by the machine: a decompression context that zstd could
/// not allocate comes back as an error.
#[verifier::external_body]
fn zstd_decode(data: &[u8]) -> (r: Result<Vec<u8>, std::io::Error>)
    ensures
        r matches Ok(content) ==> zstd_content(data@) == Some(content@),
{
    zstd::stream::decode_all(data)
}

/// The form in which a payload travels, given its plain form and what the
/// compressor made of it: the compressed form where that is strictly
/// shorter, else the plain one. The flag says which. Where the compressor
/// failed, so does this.
pub fn choose_payload(plain: Vec<u8>, packed: Result<Vec<u8>, std::io::Error>) -> (r: Result<
    (Vec<u8>, bool),
    CodecError,
>)
    ensures
        match packed {
            Ok(p) => r matches Ok((data, is_compressed)) && is_compressed == (p@.len()
                < plain@.len()) && data@ == if is_compressed {
                p@
            } else {
                plain@
            },
            Err(_) => r matches Err(e) && e == CodecError::Compress,
        },
{
    match packed {
        Ok(p) => if p.len() < plain.len() {
            Ok((p, true))
        } else {
            Ok((plain, false))
        },
        Err(_) => Err(CodecError::Compress),
    }
}

/// Decides how a payload travels. One of up to `COMPRESS_THRESH` bytes
/// goes as it is, always. A longer one is handed to zstd as it is, and goes
/// compressed where that makes it strictly shorter. Where zstd fails, which
/// only the machine can make it do, so does this.
pub fn encode_payload(plain: Vec<u8>) -> (r: Result<(Vec<u8>, bool), CodecError>)
    ensures
        plain@.len() <= COMPRESS_THRESH ==> (r matches Ok((data, is_compressed)) && !is_compressed
            && data@ == plain@),
        plain@.len() > COMPRESS_THRESH ==> match r {
            Ok((data, is_compressed)) => is_compressed == (zstd_frame(plain@).len() < plain@.len())
                && data@ == if is_compressed {
                zstd_frame(plain@)
            } else {
                plain@
            },
            Err(e) => e == CodecError::Compress,
        },
{
    if plain.len() <= COMPRESS_THRESH {
        return Ok((plain, false));
    }
    // It's a little heavy; let's try compressing it
    let packed = zstd_encode(plain.as_slice());
    choose_payload(plain, packed)
}

/// The plain form of a compressed payload, given what the decompressor made
/// of it.
pub fn unpacked_payload(unpacked: Result<Vec<u8>, std::io::Error>) -> (r: Result<
    Vec<u8>,
    CodecError,
>)
    ensures
        match unpacked {
            Ok(p) => r matches Ok(plain) && plain@ == p@,
            Err(_) => r matches Err(e) && e == CodecError::Decompress,
        },
{
    match unpacked {
        Ok(p) => Ok(p),
        Err(_) => Err(CodecError::Decompress),
    }
}

/// The plain form of a payload as it came in: itself, always, where it came
/// as it is; what zstd unpacks from it where it came compressed. A payload
/// that is marked as compressed and is no zstd frame is refused. One that
/// is can still be refused, where the machine fails zstd.
pub fn decode_payload(data: Vec<u8>, is_compressed: bool) -> (r: Result<Vec<u8>, CodecError>)
    ensures
        !is_compressed ==> (r matches Ok(plain) && plain@ == data@),
        is_compressed ==> match r {
            Ok(plain) => zstd_content(data@) == Some(plain@),
            Err(e) => e == CodecError::Decompress,
        },
        is_compressed && zstd_content(data@) is None ==> r is Err,
{
    if is_compressed {
        unpacked_payload(zstd_decode(data.as_slice()))
    } else {
        Ok(data)
    }
}

/// What decoding a message has come to. The fields of a message are
/// serialised by a format that is not this module's business, so a message
/// of a known kind comes out as its kind and its body, still to be read.
#[derive(Debug, PartialEq)]
pub enum Decoding {
    /// Nothing is left to do.
    Done(DecodedPdu),
    /// A message of the kind `kind`, whose fields `body` holds.
    Body { serial: u64, kind: PduKind, body: Vec<u8> },
}

impl Pdu {
    /// The frame for this message under `serial`. `body` holds the fields
    /// of the message in their serialised form. `Pdu::Invalid` is refused.
    pub fn encode(&self, body: Vec<u8>, serial: u64) -> (r: Result<Vec<u8>, CodecError>)
        ensures
            self.spec_kind() is None ==> (r matches Err(e) && e == CodecError::InvalidPdu),
            self.spec_kind() matches Some(kind) ==> pdu_encoded(kind, body@, serial, r),
    {
        match self.kind() {
            None => Err(CodecError::InvalidPdu),
            Some(kind) => encode_body(kind, body, serial),
        }
    }

    /// Reads the message that the frame at the front of `bytes` holds. A
    /// frame under a number that is no kind's gives `Pdu::Invalid` with
    /// that number: its payload is not looked at.
    pub fn decode(bytes: &[u8]) -> (r: Result<Decoding, CodecError>)
        ensures
            match parse_frame(bytes@) {
                Err(e) => r matches Err(got) && got == CodecError::Frame(e),
                Ok((frame, _)) => match PduKind::spec_from_ident(frame.ident) {
                    None => r matches Ok(Decoding::Done(d)) && d.serial == frame.serial && d.pdu
                        == (Pdu::Invalid { ident: frame.ident }),
                    Some(kind) => if frame.is_compressed {
                        match r {
                            Ok(Decoding::Body { serial, kind: k, body }) => serial == frame.serial
                                && k == kind && zstd_content(frame.data) == Some(body@),
                            Ok(_) => false,
                            Err(e) => e == CodecError::Decompress,
                        }
                    } else {
                        r matches Ok(Decoding::Body { serial, kind: k, body }) && serial
                            == frame.serial && k == kind && body@ == frame.data
                    },
                },
            },
    {
        let decoded = match decode_raw(bytes) {
            Ok(d) => d,
            Err(e) => {
                return Err(CodecError::Frame(e));
            },
        };
        match PduKind::from_ident(decoded.ident) {
            None => Ok(
                Decoding::Done(
                    DecodedPdu { serial: decoded.serial, pdu: Pdu::Invalid { ident: decoded.ident } },
                ),
            ),
            Some(kind) => {
                let serial = decoded.serial;
                match decode_payload(decoded.data, decoded.is_compressed) {
                    Ok(body) => Ok(Decoding::Body { serial, kind, body }),
                    Err(e) => Err(e),
                }
            },
        }
    }
}

/// What encoding the body `body` of a message of the kind `kind` gives: the
/// frame under the kind's number whose payload is the body as it travels.
/// A body of up to `COMPRESS_THRESH` bytes always goes out, uncompressed.
pub open spec fn pdu_encoded(
    kind: PduKind,
    body: Seq<u8>,
    serial: u64,
    r: Result<Vec<u8>, CodecError>,
) -> bool {
    let packed = body.len() > COMPRESS_THRESH && zstd_frame(body).len() < body.len();
    let data = if packed {
        zstd_frame(body)
    } else {
        body
    };
    match r {
        Ok(bytes) => frame_fits(kind.spec_ident(), serial, data.len()) && bytes@ == frame_bytes(
            Frame { ident: kind.spec_ident(), serial, data, is_compressed: packed },
        ),
        Err(e) => if body.len() <= COMPRESS_THRESH {
            false
        } else {
            e == CodecError::Compress || (e == CodecError::TooLarge && !frame_fits(
                kind.spec_ident(),
                serial,
                data.len(),
            ))
        },
    }
}

/// The frame for a message of the kind `kind` under `serial`, whose fields
/// `body` holds in their serialised form.
pub fn encode_body(kind: PduKind, body: Vec<u8>, serial: u64) -> (r: Result<Vec<u8>, CodecError>)
    ensures
        pdu_encoded(kind, body@, serial, r),
{
    let (data, is_compressed) = match encode_payload(body) {
        Ok(v) => v,
        Err(e) => {
            return Err(e);
        },
    };
    proof {
        lemma_varint_u64(kind.spec_ident());
        lemma_varint_u64(serial);
    }
    match encode_raw(kind.ident(), serial, data.as_slice(), is_compressed) {
        Ok(bytes) => Ok(bytes),
        Err(_) => Err(CodecError::TooLarge),
    }
}

} // verus!
