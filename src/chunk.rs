use vstd::prelude::*;

use vstd::std_specs::convert::TryFromSpecImpl;
use vstd::string::StringExecFns;
use vstd::utf8::{decode_utf8, valid_utf8};

use crate::chunk_type::{ascii_text, is_type_code, push_char, ChunkType};
use crate::error::PngError;

verus! {

/// The CRC-32/ISO-HDLC checksum of a byte sequence.
pub uninterp spec fn crc32_iso_hdlc(bytes: Seq<u8>) -> u32;

/// Relies on `crc::Crc::<u32>::checksum` with the `CRC_32_ISO_HDLC` algorithm:
/// the checksum of the bytes, which depends on the bytes alone.
#[verifier::external_body]
fn checksum_bytes(bytes: &[u8]) -> (r: u32)
    ensures
        r == crc32_iso_hdlc(bytes@),
{
    crc::Crc::<u32>::new(&crc::CRC_32_ISO_HDLC).checksum(bytes)
}

/// Relies on `String::from_utf8`: it succeeds exactly on valid UTF-8, and then
/// holds the characters that the bytes encode.
#[verifier::external_body]
fn utf8_to_string(bytes: Vec<u8>) -> (r: Option<String>)
    ensures
        r is Some <==> valid_utf8(bytes@),
        r matches Some(s) ==> s@ == decode_utf8(bytes@),
{
    String::from_utf8(bytes).ok()
}

/// The checksum of a record: over the type bytes followed by the payload.
pub open spec fn checksum_of(type_code: Seq<u8>, data: Seq<u8>) -> u32 {
    crc32_iso_hdlc(type_code + data)
}

/// The big-endian value of four bytes.
pub open spec fn u32_from_be(b0: u8, b1: u8, b2: u8, b3: u8) -> u32 {
    ((b0 as u32) << 24u32) | ((b1 as u32) << 16u32) | ((b2 as u32) << 8u32) | (b3 as u32)
}

/// The big-endian value of the four bytes of `b` starting at `i`.
pub open spec fn be_at(b: Seq<u8>, i: int) -> u32 {
    u32_from_be(b[i], b[i + 1], b[i + 2], b[i + 3])
}

/// The four big-endian bytes of `n`.
pub open spec fn be_bytes(n: u32) -> Seq<u8> {
    seq![(n >> 24u32) as u8, (n >> 16u32) as u8, (n >> 8u32) as u8, n as u8]
}

/// What a record holds: its type bytes and its payload.
pub struct ChunkModel {
    pub type_code: Seq<u8>,
    pub data: Seq<u8>,
}

/// The wire form of a record: length, type, payload, checksum.
pub open spec fn encoding(type_code: Seq<u8>, data: Seq<u8>) -> Seq<u8> {
    be_bytes(data.len() as u32) + type_code + data + be_bytes(checksum_of(type_code, data))
}

/// What decoding a buffer gives: the first failed check, or the record.
pub open spec fn parse_record(b: Seq<u8>) -> Result<ChunkModel, PngError> {
    if b.len() < 12 {
        Err(PngError::TooShort)
    } else if b.len() != 12 + be_at(b, 0) {
        Err(PngError::LengthMismatch)
    } else if !is_type_code(b.subrange(4, 8)) {
        Err(PngError::InvalidTypeCode)
    } else if checksum_of(b.subrange(4, 8), b.subrange(8, b.len() - 4)) != be_at(b, b.len() - 4) {
        Err(PngError::CrcMismatch)
    } else {
        Ok(ChunkModel { type_code: b.subrange(4, 8), data: b.subrange(8, b.len() - 4) })
    }
}

/// The decimal digit character for `d` below ten.
pub open spec fn digit_char(d: nat) -> char {
    ((48 + d) as u8) as char
}

/// The decimal digits of `n`, most significant first, without leading zeros.
pub open spec fn decimal(n: nat) -> Seq<char>
    decreases n,
{
    if n < 10 {
        seq![digit_char(n)]
    } else {
        decimal(n / 10).push(digit_char(n % 10))
    }
}

/// The multi-line summary of a record: its length, type, payload size and checksum.
pub open spec fn summary_text(m: ChunkModel) -> Seq<char> {
    "Chunk {\n  Length: "@ + decimal(m.data.len()) + "\n  Type: "@ + ascii_text(m.type_code)
        + "\n  Data: "@ + decimal(m.data.len()) + " bytes\n  Crc: "@ + decimal(
        checksum_of(m.type_code, m.data) as nat,
    ) + "\n}\n"@
}

fn push_decimal(out: &mut String, n: u32)
    ensures
        final(out)@ == old(out)@ + decimal(n as nat),
    decreases n,
{
    if n >= 10 {
        push_decimal(out, n / 10);
    }
    push_char(out, ((48 + n % 10) as u8) as char);
    assert(final(out)@ =~= old(out)@ + decimal(n as nat));
}

/// A record whose length and checksum agree with its type and payload.
#[derive(Debug)]
pub struct Chunk {
    len: u32,
    chunktype: ChunkType,
    chunk_data: Vec<u8>,
    chunk_crc: u32,
}

impl View for Chunk {
    type V = ChunkModel;

    closed spec fn view(&self) -> ChunkModel {
        ChunkModel { type_code: self.chunktype@, data: self.chunk_data@ }
    }
}

impl Chunk {
    #[verifier::type_invariant]
    spec fn inv(self) -> bool {
        &&& self.len as int == self.chunk_data@.len()
        &&& self.chunk_crc == checksum_of(self.chunktype@, self.chunk_data@)
    }

    /// Builds a record from a type code and a payload, computing its checksum.
    pub fn new(chunktype_init: ChunkType, data_init: Vec<u8>) -> (r: Chunk)
        requires
            data_init@.len() <= u32::MAX,
        ensures
            r@ == (ChunkModel { type_code: chunktype_init@, data: data_init@ }),
    {
        let type_bytes = chunktype_init.bytes();
        let mut check: Vec<u8> = vec![type_bytes[0], type_bytes[1], type_bytes[2], type_bytes[3]];
        let mut i: usize = 0;
        while i < data_init.len()
            invariant
                i <= data_init@.len(),
                check@ == type_bytes@ + data_init@.subrange(0, i as int),
            decreases data_init@.len() - i,
        {
            check.push(data_init[i]);
            i = i + 1;
            assert(check@ =~= type_bytes@ + data_init@.subrange(0, i as int));
        }
        assert(data_init@.subrange(0, data_init@.len() as int) =~= data_init@);
        let checksum = checksum_bytes(check.as_slice());
        Chunk {
            len: data_init.len() as u32,
            chunktype: chunktype_init,
            chunk_data: data_init,
            chunk_crc: checksum,
        }
    }

    /// The payload length.
    pub fn length(&self) -> (r: u32)
        ensures
            r as int == self@.data.len(),
    {
        proof { use_type_invariant(self); }
        self.len
    }

    /// The type code.
    pub fn chunk_type(&self) -> (r: &ChunkType)
        ensures
            r@ == self@.type_code,
    {
        &self.chunktype
    }

    /// The payload bytes.
    pub fn data(&self) -> (r: &[u8])
        ensures
            r@ == self@.data,
    {
        self.chunk_data.as_slice()
    }

    /// The checksum over the type bytes and the payload.
    pub fn crc(&self) -> (r: u32)
        ensures
            r == checksum_of(self@.type_code, self@.data),
    {
        proof { use_type_invariant(self); }
        self.chunk_crc
    }

    /// The payload read as UTF-8 text.
    pub fn data_as_string(&self) -> (r: Result<String, PngError>)
        ensures
            r is Ok <==> valid_utf8(self@.data),
            r matches Ok(s) ==> s@ == decode_utf8(self@.data),
            r matches Err(e) ==> e == PngError::Utf8DecodeError,
    {
        match utf8_to_string(self.chunk_data.clone()) {
            Some(s) => Ok(s),
            None => Err(PngError::Utf8DecodeError),
        }
    }

    /// The wire form: big-endian length, type bytes, payload, big-endian checksum.
    pub fn as_bytes(&self) -> (r: Vec<u8>)
        ensures
            r@ == encoding(self@.type_code, self@.data),
    {
        proof { use_type_invariant(self); }
        let len = self.len;
        let crc = self.chunk_crc;
        let t = self.chunktype.bytes();
        let mut out: Vec<u8> = vec![
            (len >> 24u32) as u8,
            (len >> 16u32) as u8,
            (len >> 8u32) as u8,
            len as u8,
            t[0],
            t[1],
            t[2],
            t[3],
        ];
        assert(out@ =~= be_bytes(len) + t@);
        let mut i: usize = 0;
        while i < self.chunk_data.len()
            invariant
                i <= self.chunk_data@.len(),
                out@ == be_bytes(len) + t@ + self.chunk_data@.subrange(0, i as int),
            decreases self.chunk_data@.len() - i,
        {
            out.push(self.chunk_data[i]);
            i = i + 1;
            assert(out@ =~= be_bytes(len) + t@ + self.chunk_data@.subrange(0, i as int));
        }
        assert(self.chunk_data@.subrange(0, self.chunk_data@.len() as int) =~= self.chunk_data@);
        out.push((crc >> 24u32) as u8);
        out.push((crc >> 16u32) as u8);
        out.push((crc >> 8u32) as u8);
        out.push(crc as u8);
        assert(out@ =~= encoding(self@.type_code, self@.data));
        out
    }

    /// A human-readable summary of the record, over several lines.
    pub fn to_string(&self) -> (r: String)
        ensures
            r@ == summary_text(self@),
    {
        proof { use_type_invariant(self); }
        let mut out = String::from_str("Chunk {\n  Length: ");
        push_decimal(&mut out, self.len);
        out.append("\n  Type: ");
        let t = self.chunktype.to_string();
        out.append(t.as_str());
        out.append("\n  Data: ");
        push_decimal(&mut out, self.len);
        out.append(" bytes\n  Crc: ");
        push_decimal(&mut out, self.chunk_crc);
        out.append("\n}\n");
        out
    }

    /// Decodes and validates one record from a buffer.
    pub fn from_bytes(bytes: &[u8]) -> (r: Result<Chunk, PngError>)
        ensures
            match r {
                Ok(c) => parse_record(bytes@) == Ok::<ChunkModel, PngError>(c@),
                Err(e) => parse_record(bytes@) == Err::<ChunkModel, PngError>(e),
            },
    {
        let n = bytes.len();
        if n < 12 {
            return Err(PngError::TooShort);
        }
        let len: u32 = ((bytes[0] as u32) << 24u32) | ((bytes[1] as u32) << 16u32)
            | ((bytes[2] as u32) << 8u32) | (bytes[3] as u32);
        if n - 12 != len as usize {
            return Err(PngError::LengthMismatch);
        }
        let chunktype = match ChunkType::from_bytes([bytes[4], bytes[5], bytes[6], bytes[7]]) {
            Ok(t) => t,
            Err(e) => {
                assert(bytes@.subrange(4, 8) =~= seq![bytes@[4], bytes@[5], bytes@[6], bytes@[7]]);
                return Err(e);
            },
        };
        assert(chunktype@ =~= bytes@.subrange(4, 8));
        let mut check: Vec<u8> = vec![bytes[4], bytes[5], bytes[6], bytes[7]];
        let mut data: Vec<u8> = Vec::new();
        let end: usize = n - 4;
        let mut i: usize = 8;
        while i < end
            invariant
                n == bytes@.len(),
                end == n - 4,
                8 <= i <= end,
                data@ == bytes@.subrange(8, i as int),
                check@ == bytes@.subrange(4, i as int),
            decreases end - i,
        {
            data.push(bytes[i]);
            check.push(bytes[i]);
            i = i + 1;
            assert(data@ =~= bytes@.subrange(8, i as int));
            assert(check@ =~= bytes@.subrange(4, i as int));
        }
        let stored: u32 = ((bytes[end] as u32) << 24u32) | ((bytes[end + 1] as u32) << 16u32)
            | ((bytes[end + 2] as u32) << 8u32) | (bytes[end + 3] as u32);
        let computed = checksum_bytes(check.as_slice());
        assert(bytes@.subrange(4, end as int) =~= bytes@.subrange(4, 8) + bytes@.subrange(8, end as int));
        if computed != stored {
            return Err(PngError::CrcMismatch);
        }
        Ok(Chunk { len, chunktype, chunk_data: data, chunk_crc: stored })
    }
}

impl Clone for Chunk {
    fn clone(&self) -> (r: Chunk)
        ensures
            r@ == self@,
    {
        proof { use_type_invariant(self); }
        Chunk {
            len: self.len,
            chunktype: self.chunktype,
            chunk_data: self.chunk_data.clone(),
            chunk_crc: self.chunk_crc,
        }
    }
}

impl<'a> TryFrom<&'a [u8]> for Chunk {
    type Error = PngError;

    fn try_from(bytes: &'a [u8]) -> (r: Result<Chunk, PngError>)
        ensures
            match r {
                Ok(c) => parse_record(bytes@) == Ok::<ChunkModel, PngError>(c@),
                Err(e) => parse_record(bytes@) == Err::<ChunkModel, PngError>(e),
            },
    {
        Chunk::from_bytes(bytes)
    }
}

/// The conversion's contract is the one stated on `try_from` above, over the
/// record's view; no spec-level record value is offered.
impl<'a> TryFromSpecImpl<&'a [u8]> for Chunk {
    open spec fn obeys_try_from_spec() -> bool {
        false
    }

    open spec fn try_from_spec(bytes: &'a [u8]) -> Result<Chunk, PngError> {
        arbitrary()
    }
}

/// Decoding then encoding gives back the buffer: every buffer that decodes is
/// exactly the wire form of the record it decodes to.
pub proof fn lemma_decode_encode(b: Seq<u8>)
    requires
        parse_record(b) is Ok,
    ensures
        encoding(parse_record(b)->Ok_0.type_code, parse_record(b)->Ok_0.data) == b,
{
    let m = parse_record(b)->Ok_0;
    let n = b.len();
    lemma_be_bytes_of_value(b[0], b[1], b[2], b[3]);
    lemma_be_bytes_of_value(b[n - 4], b[n - 3], b[n - 2], b[n - 1]);
    assert(m.data.len() == be_at(b, 0));
    assert(b.subrange(0, 4) =~= seq![b[0], b[1], b[2], b[3]]);
    assert(b.subrange(n - 4, n as int) =~= seq![b[n - 4], b[n - 3], b[n - 2], b[n - 1]]);
    assert(encoding(m.type_code, m.data) =~= b);
}

/// Encoding then decoding gives back the record: the wire form of any valid
/// type code and payload decodes to that same type code and payload.
pub proof fn lemma_encode_decode(type_code: Seq<u8>, data: Seq<u8>)
    requires
        is_type_code(type_code),
        data.len() <= u32::MAX,
    ensures
        parse_record(encoding(type_code, data)) == Ok::<ChunkModel, PngError>(
            ChunkModel { type_code, data },
        ),
{
    let b = encoding(type_code, data);
    let len = data.len() as u32;
    let crc = checksum_of(type_code, data);
    let n = b.len();
    assert(n == 12 + data.len());
    lemma_be_round_trip(len);
    lemma_be_round_trip(crc);
    assert(be_at(b, 0) == len);
    assert(b.subrange(4, 8) =~= type_code);
    assert(b.subrange(8, n - 4) =~= data);
    assert(be_at(b, n - 4) == crc);
}

/// The checksum depends on the type code and the payload alone: records with
/// the same type code and payload have the same checksum.
pub proof fn lemma_checksum_deterministic(a: ChunkModel, b: ChunkModel)
    requires
        a.type_code == b.type_code,
        a.data == b.data,
    ensures
        checksum_of(a.type_code, a.data) == checksum_of(b.type_code, b.data),
{
}

proof fn lemma_be_round_trip(n: u32)
    ensures
        u32_from_be((n >> 24u32) as u8, (n >> 16u32) as u8, (n >> 8u32) as u8, n as u8) == n,
{
    assert(((((n >> 24u32) as u8) as u32) << 24u32) | ((((n >> 16u32) as u8) as u32) << 16u32)
        | ((((n >> 8u32) as u8) as u32) << 8u32) | ((n as u8) as u32) == n) by (bit_vector);
}

proof fn lemma_be_bytes_of_value(b0: u8, b1: u8, b2: u8, b3: u8)
    ensures
        be_bytes(u32_from_be(b0, b1, b2, b3)) == seq![b0, b1, b2, b3],
{
    let n = u32_from_be(b0, b1, b2, b3);
    assert(n == ((b0 as u32) << 24u32) | ((b1 as u32) << 16u32) | ((b2 as u32) << 8u32) | (b3 as u32));
    assert((n >> 24u32) as u8 == b0 && (n >> 16u32) as u8 == b1 && (n >> 8u32) as u8 == b2
        && n as u8 == b3) by (bit_vector)
        requires
            n == ((b0 as u32) << 24u32) | ((b1 as u32) << 16u32) | ((b2 as u32) << 8u32) | (b3 as u32),
    ;
    assert(be_bytes(n) =~= seq![b0, b1, b2, b3]);
}

} // verus!
