//! Chunk records: a type code, a payload, and a CRC-32 over both.
use crate::bytes::{be_bytes, be_read, push_all, u32_from_be, u32_to_be};
use crate::chunk_type::{lossy_text, valid_code, ChunkType};
use vstd::prelude::*;
use vstd::string::StringExecFns;
use vstd::utf8::{decode_utf8, valid_utf8};

verus! {

/// Bytes of the length, type and checksum fields around a payload.
pub const METADATA_BYTES: usize = 12;

/// The CRC-32/ISO-HDLC checksum (the one of zlib and gzip) of `bytes`.
pub uninterp spec fn crc32_iso_hdlc(bytes: Seq<u8>) -> u32;

/// Relies on `crc::Crc::<u32>::checksum` with `crc::CRC_32_ISO_HDLC`: the checksum
/// depends on the bytes alone.
#[verifier::external_body]
fn crc32(bytes: &[u8]) -> (r: u32)
    ensures
        r == crc32_iso_hdlc(bytes@),
{
    crc::Crc::<u32>::new(&crc::CRC_32_ISO_HDLC).checksum(bytes)
}

/// Relies on `String::from_utf8`: it succeeds exactly on valid UTF-8, and the
/// string then holds the decoded characters.
#[verifier::external_body]
fn utf8_to_string(bytes: Vec<u8>) -> (r: Result<String, std::string::FromUtf8Error>)
    ensures
        r is Ok <==> valid_utf8(bytes@),
        r matches Ok(s) ==> s@ == decode_utf8(bytes@),
{
    String::from_utf8(bytes)
}

/// The text of the `Debug` formatting of a byte slice, such as `[1, 2, 3]`.
pub uninterp spec fn debug_text(bytes: Seq<u8>) -> Seq<char>;

/// Relies on the `Debug` formatting of `[u8]`: the text depends on the bytes
/// alone.
#[verifier::external_body]
pub(crate) fn debug_bytes(bytes: &[u8]) -> (r: String)
    ensures
        r@ == debug_text(bytes@),
{
    format!("{:?}", bytes)
}

/// The diagnostic rendering of a chunk with type bytes `t` and payload `d`.
pub open spec fn chunk_text(t: Seq<u8>, d: Seq<u8>) -> Seq<char> {
    lossy_text(t) + ": "@ + debug_text(d)
}

/// Declares `std::string::FromUtf8Error`, the error of `String::from_utf8`,
/// so that it can be handed back; nothing looks inside it.
#[verifier::external_type_specification]
#[verifier::external_body]
pub struct ExFromUtf8Error(std::string::FromUtf8Error);

/// Errors of reading a chunk record or its payload.
#[derive(Debug, Clone, Copy, PartialEq, Eq, Structural)]
pub enum ChunkError {
    /// The payload is not valid UTF-8 text.
    InvalidUtf8,
    /// The buffer ends before a field that the record declares.
    ShortInput,
    /// The type code is not four ASCII letters with a capital third one.
    InvalidChunkType,
    /// The stored checksum differs from the one computed over type and payload.
    IncorrectCrc { found_crc: u32, expected_crc: u32 },
}

/// A record with type bytes `t`, payload `d` and the checksum field `crc`:
/// length, type, payload, checksum.
pub open spec fn record_layout(t: Seq<u8>, d: Seq<u8>, crc: u32) -> Seq<u8> {
    be_bytes(d.len() as u32) + t + d + be_bytes(crc)
}

/// The serialized record of a chunk with type bytes `t` and payload `d`, whose
/// checksum field holds the checksum of `t` followed by `d`.
#[verifier::opaque]
pub open spec fn encode_chunk(t: Seq<u8>, d: Seq<u8>) -> Seq<u8> {
    record_layout(t, d, crc32_iso_hdlc(t + d))
}

/// The payload length declared by the record at the start of `b`.
pub open spec fn declared_len(b: Seq<u8>) -> int {
    be_read(b.subrange(0, 4)) as int
}

/// The outcome of reading the record at the start of `b`: the type bytes and
/// payload, or the error. Bytes after the record are left alone.
pub open spec fn parse_record(b: Seq<u8>) -> Result<(Seq<u8>, Seq<u8>), ChunkError> {
    if b.len() < 12 {
        Err(ChunkError::ShortInput)
    } else if !valid_code(b.subrange(4, 8)) {
        Err(ChunkError::InvalidChunkType)
    } else if b.len() < 12 + declared_len(b) {
        Err(ChunkError::ShortInput)
    } else {
        let n = declared_len(b);
        let found = be_read(b.subrange(8 + n, 12 + n));
        let expected = crc32_iso_hdlc(b.subrange(4, 8 + n));
        if found != expected {
            Err(ChunkError::IncorrectCrc { found_crc: found, expected_crc: expected })
        } else {
            Ok((b.subrange(4, 8), b.subrange(8, 8 + n)))
        }
    }
}

/// Where each field of a chunk's record lies.
pub proof fn lemma_encoded_fields(t: Seq<u8>, d: Seq<u8>)
    requires
        t.len() == 4,
        d.len() <= u32::MAX,
    ensures
        ({
            let b = encode_chunk(t, d);
            let m = d.len() as int;
            &&& b.len() == 12 + m
            &&& declared_len(b) == m
            &&& b.subrange(4, 8) == t
            &&& b.subrange(8, 8 + m) == d
            &&& b.subrange(4, 8 + m) == t + d
            &&& be_read(b.subrange(8 + m, 12 + m)) == crc32_iso_hdlc(t + d)
        }),
{
    reveal(encode_chunk);
    let b = encode_chunk(t, d);
    let m = d.len() as int;
    crate::bytes::lemma_be_read_bytes(d.len() as u32);
    crate::bytes::lemma_be_read_bytes(crc32_iso_hdlc(t + d));
    assert(b.subrange(0, 4) =~= be_bytes(d.len() as u32));
    assert(b.subrange(4, 8) =~= t);
    assert(b.subrange(8, 8 + m) =~= d);
    assert(b.subrange(4, 8 + m) =~= t + d);
    assert(b.subrange(8 + m, 12 + m) =~= be_bytes(crc32_iso_hdlc(t + d)));
}

/// Reading a chunk's record gives back its type bytes and payload, whatever
/// bytes follow the record.
pub proof fn lemma_parse_encoded(t: Seq<u8>, d: Seq<u8>, rest: Seq<u8>)
    requires
        valid_code(t),
        d.len() <= u32::MAX,
    ensures
        parse_record(encode_chunk(t, d) + rest) == Ok::<_, ChunkError>((t, d)),
{
    let e = encode_chunk(t, d);
    let b = e + rest;
    let m = d.len() as int;
    lemma_encoded_fields(t, d);
    assert(b.subrange(0, 4) =~= e.subrange(0, 4));
    assert(b.subrange(4, 8) =~= e.subrange(4, 8));
    assert(b.subrange(8, 8 + m) =~= e.subrange(8, 8 + m));
    assert(b.subrange(4, 8 + m) =~= e.subrange(4, 8 + m));
    assert(b.subrange(8 + m, 12 + m) =~= e.subrange(8 + m, 12 + m));
}

/// Round trip: the record of a chunk with a valid type code reads back as the
/// same type bytes and payload, so as the same checksum too.
pub proof fn lemma_chunk_round_trip(t: Seq<u8>, d: Seq<u8>)
    requires
        valid_code(t),
        d.len() <= u32::MAX,
    ensures
        parse_record(encode_chunk(t, d)) == Ok::<_, ChunkError>((t, d)),
{
    lemma_parse_encoded(t, d, Seq::empty());
    assert(encode_chunk(t, d) + Seq::empty() =~= encode_chunk(t, d));
}

/// A record that reads, changed inside its checksum field only, fails to read
/// with `IncorrectCrc`.
proof fn lemma_checksum_field_changed(b: Seq<u8>, b2: Seq<u8>, k: int)
    requires
        parse_record(b) is Ok,
        b2.len() == b.len(),
        8 + declared_len(b) <= k < 12 + declared_len(b),
        b2 == b.update(k, b2[k]),
        b2[k] != b[k],
    ensures
        parse_record(b2) matches Err(ChunkError::IncorrectCrc { found_crc, expected_crc })
            && expected_crc == crc32_iso_hdlc(b.subrange(4, 8 + declared_len(b))) && found_crc
            != expected_crc,
{
    let n = declared_len(b);
    assert(b2.subrange(0, 4) =~= b.subrange(0, 4));
    assert(b2.subrange(4, 8) =~= b.subrange(4, 8));
    assert(b2.subrange(4, 8 + n) =~= b.subrange(4, 8 + n));
    let f = b.subrange(8 + n, 12 + n);
    let f2 = b2.subrange(8 + n, 12 + n);
    assert(f2[k - 8 - n] != f[k - 8 - n]);
    crate::bytes::lemma_be_read_injective(f2, f);
}

/// Flipping any one bit of the checksum field of a chunk's record makes the
/// record fail to read with `IncorrectCrc`, reporting the checksum of the
/// type bytes and payload as the expected one.
pub proof fn lemma_checksum_bit_flip(t: Seq<u8>, d: Seq<u8>, k: int, bit: u8)
    requires
        valid_code(t),
        d.len() <= u32::MAX,
        8 + d.len() <= k < 12 + d.len(),
        bit < 8,
    ensures
        parse_record(encode_chunk(t, d).update(k, encode_chunk(t, d)[k] ^ (1u8 << bit)))
            matches Err(ChunkError::IncorrectCrc { found_crc, expected_crc })
            && expected_crc == crc32_iso_hdlc(t + d) && found_crc != expected_crc,
{
    let b = encode_chunk(t, d);
    let x = b[k];
    let y = x ^ (1u8 << bit);
    assert(y != x) by (bit_vector)
        requires
            y == x ^ (1u8 << bit),
            bit < 8,
    ;
    lemma_encoded_fields(t, d);
    lemma_chunk_round_trip(t, d);
    let b2 = b.update(k, y);
    assert(b2 =~= b.update(k, b2[k]));
    lemma_checksum_field_changed(b, b2, k);
}

/// A buffer shorter than the fixed fields, or one whose declared payload runs
/// past its end, fails to read with `ShortInput` (once its type code is valid:
/// the type code is checked before the declared length).
pub proof fn lemma_truncated_is_short(b: Seq<u8>)
    requires
        b.len() < 12 || (valid_code(b.subrange(4, 8)) && b.len() < 12 + declared_len(b)),
    ensures
        parse_record(b) == Err::<(Seq<u8>, Seq<u8>), _>(ChunkError::ShortInput),
{
}

/// A chunk: its type code and the payload it owns. Length and checksum are
/// computed from these whenever they are asked for.
#[derive(Debug, Clone)]
pub struct Chunk {
    chunk_type: ChunkType,
    data: Vec<u8>,
}

impl View for Chunk {
    /// The type bytes and the payload.
    type V = (Seq<u8>, Seq<u8>);

    closed spec fn view(&self) -> (Seq<u8>, Seq<u8>) {
        (self.chunk_type@, self.data@)
    }
}

impl Chunk {
    /// The payload's length fits the four-byte length field.
    pub open spec fn wf(&self) -> bool {
        self@.1.len() <= u32::MAX
    }

    /// A chunk of the given type that owns `data`.
    pub fn new(chunk_type: ChunkType, data: Vec<u8>) -> (r: Chunk)
        requires
            data@.len() <= u32::MAX,
        ensures
            r@ == (chunk_type@, data@),
            r.wf(),
    {
        Chunk { chunk_type, data }
    }

    /// The payload's length in bytes.
    pub fn length(&self) -> (r: u32)
        requires
            self.wf(),
        ensures
            r as int == self@.1.len(),
    {
        self.data.len() as u32
    }

    /// The chunk's type code.
    pub fn chunk_type(&self) -> (r: &ChunkType)
        ensures
            r@ == self@.0,
    {
        &self.chunk_type
    }

    /// The payload.
    pub fn data(&self) -> (r: &[u8])
        ensures
            r@ == self@.1,
    {
        self.data.as_slice()
    }

    /// The CRC-32/ISO-HDLC checksum of the type bytes followed by the payload.
    pub fn crc(&self) -> (r: u32)
        ensures
            r == crc32_iso_hdlc(self@.0 + self@.1),
    {
        let mut covered: Vec<u8> = Vec::new();
        let t = self.chunk_type.bytes();
        push_all(&mut covered, t.as_slice());
        push_all(&mut covered, self.data.as_slice());
        assert(covered@ =~= self@.0 + self@.1);
        crc32(covered.as_slice())
    }

    /// The payload as text, when it is valid UTF-8.
    pub fn data_as_string(&self) -> (r: Result<String, ChunkError>)
        ensures
            r is Ok <==> valid_utf8(self@.1),
            r matches Ok(s) ==> s@ == decode_utf8(self@.1),
            r matches Err(e) ==> e == ChunkError::InvalidUtf8,
    {
        match utf8_to_string(self.data.clone()) {
            Ok(s) => Ok(s),
            Err(_) => Err(ChunkError::InvalidUtf8),
        }
    }

    /// A diagnostic rendering: the type code, a colon, and the payload's bytes.
    pub fn to_string(&self) -> (r: String)
        ensures
            r@ == chunk_text(self@.0, self@.1),
    {
        let mut text = self.chunk_type.to_string();
        text.append(": ");
        let payload = debug_bytes(self.data.as_slice());
        text.append(payload.as_str());
        text
    }

    /// The record of this chunk: payload length (4 bytes, big-endian), the type
    /// bytes, the payload, and the checksum (4 bytes, big-endian).
    pub fn as_bytes(&self) -> (r: Vec<u8>)
        requires
            self.wf(),
        ensures
            r@ == encode_chunk(self@.0, self@.1),
    {
        let out = Chunk::record_bytes(&self.chunk_type, self.data.as_slice(), self.crc());
        proof {
            reveal(encode_chunk);
        }
        out
    }

    /// A record with the given type, payload and checksum field, whatever
    /// checksum that is.
    pub fn record_bytes(chunk_type: &ChunkType, data: &[u8], crc: u32) -> (r: Vec<u8>)
        requires
            data@.len() <= u32::MAX,
        ensures
            r@ == record_layout(chunk_type@, data@, crc),
    {
        let mut out: Vec<u8> = Vec::new();
        let len = u32_to_be(data.len() as u32);
        push_all(&mut out, len.as_slice());
        let t = chunk_type.bytes();
        push_all(&mut out, t.as_slice());
        push_all(&mut out, data);
        let checksum = u32_to_be(crc);
        push_all(&mut out, checksum.as_slice());
        out
    }

    /// Reads the record at the start of `bytes`; what follows it is not read.
    pub fn parse(bytes: &[u8]) -> (r: Result<Chunk, ChunkError>)
        ensures
            match r {
                Ok(c) => parse_record(bytes@) == Ok::<_, ChunkError>(c@) && c.wf(),
                Err(e) => parse_record(bytes@) == Err::<(Seq<u8>, Seq<u8>), _>(e),
            },
    {
        if bytes.len() < METADATA_BYTES {
            return Err(ChunkError::ShortInput);
        }
        let n = u32_from_be(bytes, 0);
        let code = ChunkType::from_raw_bytes([bytes[4], bytes[5], bytes[6], bytes[7]]);
        assert(code@ =~= bytes@.subrange(4, 8));
        if !code.is_valid() {
            return Err(ChunkError::InvalidChunkType);
        }
        if bytes.len() - METADATA_BYTES < n as usize {
            return Err(ChunkError::ShortInput);
        }
        let end = 8 + n as usize;
        let data = vstd::slice::slice_to_vec(vstd::slice::slice_subrange(bytes, 8, end));
        let chunk = Chunk { chunk_type: code, data };
        let found = u32_from_be(bytes, end);
        let expected = chunk.crc();
        assert(chunk@.0 + chunk@.1 =~= bytes@.subrange(4, 8 + n));
        if found != expected {
            return Err(ChunkError::IncorrectCrc { found_crc: found, expected_crc: expected });
        }
        Ok(chunk)
    }
}

impl<'a> TryFrom<&'a [u8]> for Chunk {
    type Error = ChunkError;

    fn try_from(bytes: &'a [u8]) -> Result<Chunk, ChunkError> {
        Chunk::parse(bytes)
    }
}

impl<'a> vstd::std_specs::convert::TryFromSpecImpl<&'a [u8]> for Chunk {
    /// A chunk owns a `Vec`, which no spec expression can build; what is
    /// returned is stated by `Chunk::parse`.
    open spec fn obeys_try_from_spec() -> bool {
        false
    }

    open spec fn try_from_spec(bytes: &'a [u8]) -> Result<Chunk, ChunkError> {
        Err(ChunkError::ShortInput)
    }
}

} // verus!
