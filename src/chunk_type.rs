use vstd::prelude::*;
use vstd::std_specs::convert::TryFromSpec;
use vstd::string::StrSliceExecFns;

use crate::error::PngError;

verus! {

/// An ASCII letter: `A`..=`Z` or `a`..=`z`.
pub open spec fn is_type_letter(b: u8) -> bool {
    (65 <= b && b <= 90) || (97 <= b && b <= 122)
}

/// An uppercase ASCII letter.
pub open spec fn is_upper(b: u8) -> bool {
    65 <= b && b <= 90
}

/// Four bytes, each an ASCII letter.
pub open spec fn is_type_code(s: Seq<u8>) -> bool {
    &&& s.len() == 4
    &&& forall|i: int| 0 <= i < 4 ==> is_type_letter(#[trigger] s[i])
}

/// An ASCII letter as a character.
pub open spec fn is_letter_char(c: char) -> bool {
    ('A' <= c && c <= 'Z') || ('a' <= c && c <= 'z')
}

/// The byte of an ASCII character.
pub open spec fn ascii_byte(c: char) -> u8 {
    (c as u32) as u8
}

/// The bytes of a text made of ASCII characters.
pub open spec fn ascii_bytes(s: Seq<char>) -> Seq<u8> {
    s.map_values(|c: char| ascii_byte(c))
}

/// What building a type code from text gives.
pub open spec fn parse_text(s: Seq<char>) -> Result<Seq<u8>, PngError> {
    if s.len() != 4 {
        Err(PngError::InvalidLength)
    } else if !(forall|i: int| 0 <= i < 4 ==> is_letter_char(#[trigger] s[i])) {
        Err(PngError::InvalidTypeCode)
    } else {
        Ok(ascii_bytes(s))
    }
}

/// The text that the bytes of a type code spell.
pub open spec fn ascii_text(b: Seq<u8>) -> Seq<char> {
    b.map_values(|x: u8| x as char)
}

/// Relies on `String::push`: appends one character to the end of the text.
#[verifier::external_body]
pub(crate) fn push_char(s: &mut String, c: char)
    ensures
        final(s)@ == old(s)@.push(c),
{
    s.push(c);
}

/// A four-byte type identifier whose bytes are ASCII letters.
#[derive(Debug, Clone, Copy)]
pub struct ChunkType {
    type_bytes: [u8; 4],
}

impl View for ChunkType {
    type V = Seq<u8>;

    closed spec fn view(&self) -> Seq<u8> {
        self.type_bytes@
    }
}

impl ChunkType {
    #[verifier::type_invariant]
    spec fn inv(self) -> bool {
        is_type_code(self.type_bytes@)
    }

    /// Builds a type code from four raw bytes.
    pub fn from_bytes(bytes: [u8; 4]) -> (r: Result<ChunkType, PngError>)
        ensures
            r is Ok <==> is_type_code(bytes@),
            r matches Ok(t) ==> t@ == bytes@,
            r matches Err(e) ==> e == PngError::InvalidTypeCode,
    {
        let mut i: usize = 0;
        while i < 4
            invariant
                i <= 4,
                bytes@.len() == 4,
                forall|k: int| 0 <= k < i ==> is_type_letter(#[trigger] bytes@[k]),
            decreases 4 - i,
        {
            let b = bytes[i];
            if !((65 <= b && b <= 90) || (97 <= b && b <= 122)) {
                return Err(PngError::InvalidTypeCode);
            }
            i = i + 1;
        }
        Ok(ChunkType { type_bytes: bytes })
    }

    /// Builds a type code from text of four ASCII letters.
    pub fn from_str(s: &str) -> (r: Result<ChunkType, PngError>)
        ensures
            match r {
                Ok(t) => parse_text(s@) == Ok::<Seq<u8>, PngError>(t@),
                Err(e) => parse_text(s@) == Err::<Seq<u8>, PngError>(e),
            },
    {
        let n = s.unicode_len();
        if n != 4 {
            return Err(PngError::InvalidLength);
        }
        let mut bytes: [u8; 4] = [0u8; 4];
        let mut i: usize = 0;
        while i < 4
            invariant
                i <= 4,
                s@.len() == 4,
                bytes@.len() == 4,
                forall|k: int| 0 <= k < i ==> is_letter_char(#[trigger] s@[k]),
                forall|k: int| 0 <= k < i ==> bytes@[k] == ascii_byte(#[trigger] s@[k]),
            decreases 4 - i,
        {
            let c = s.get_char(i);
            if !(('A' <= c && c <= 'Z') || ('a' <= c && c <= 'z')) {
                return Err(PngError::InvalidTypeCode);
            }
            bytes[i] = (c as u32) as u8;
            i = i + 1;
        }
        assert(bytes@ =~= ascii_bytes(s@));
        assert forall|k: int| 0 <= k < 4 implies is_type_letter(#[trigger] bytes@[k]) by {
            assert(is_letter_char(s@[k]));
        }
        Ok(ChunkType { type_bytes: bytes })
    }

    /// The four raw bytes.
    pub fn bytes(&self) -> (r: [u8; 4])
        ensures
            r@ == self@,
            is_type_code(self@),
    {
        proof { use_type_invariant(self); }
        self.type_bytes
    }

    /// The four characters of the type code, verbatim.
    pub fn to_string(&self) -> (r: String)
        ensures
            r@ == ascii_text(self@),
    {
        let mut out = String::new();
        let mut i: usize = 0;
        while i < 4
            invariant
                i <= 4,
                self.type_bytes@.len() == 4,
                out@ == ascii_text(self.type_bytes@.subrange(0, i as int)),
            decreases 4 - i,
        {
            push_char(&mut out, self.type_bytes[i] as char);
            i = i + 1;
            assert(out@ =~= ascii_text(self.type_bytes@.subrange(0, i as int)));
        }
        assert(self.type_bytes@.subrange(0, 4) =~= self.type_bytes@);
        out
    }

    /// Critical: the first byte is uppercase.
    pub fn is_critical(&self) -> (r: bool)
        ensures
            r == is_upper(self@[0]),
    {
        proof { use_type_invariant(self); }
        let b = self.type_bytes[0];
        65 <= b && b <= 90
    }

    /// Public: the second byte is uppercase.
    pub fn is_public(&self) -> (r: bool)
        ensures
            r == is_upper(self@[1]),
    {
        proof { use_type_invariant(self); }
        let b = self.type_bytes[1];
        65 <= b && b <= 90
    }

    /// Reserved bit valid: the third byte is uppercase.
    pub fn is_reserved_bit_valid(&self) -> (r: bool)
        ensures
            r == is_upper(self@[2]),
    {
        proof { use_type_invariant(self); }
        let b = self.type_bytes[2];
        65 <= b && b <= 90
    }

    /// Safe to copy: the fourth byte is not uppercase.
    pub fn is_safe_to_copy(&self) -> (r: bool)
        ensures
            r == !is_upper(self@[3]),
    {
        proof { use_type_invariant(self); }
        let b = self.type_bytes[3];
        !(65 <= b && b <= 90)
    }

    /// A type code is valid exactly when its reserved bit is valid.
    pub fn is_valid(&self) -> (r: bool)
        ensures
            r == is_upper(self@[2]),
    {
        self.is_reserved_bit_valid()
    }
}

impl PartialEq for ChunkType {
    fn eq(&self, other: &ChunkType) -> (r: bool) {
        let r = self.type_bytes[0] == other.type_bytes[0] && self.type_bytes[1]
            == other.type_bytes[1] && self.type_bytes[2] == other.type_bytes[2]
            && self.type_bytes[3] == other.type_bytes[3];
        proof {
            if r {
                assert(self.type_bytes@ =~= other.type_bytes@);
            }
        }
        r
    }
}

impl vstd::std_specs::cmp::PartialEqSpecImpl for ChunkType {
    open spec fn obeys_eq_spec() -> bool {
        true
    }

    open spec fn eq_spec(&self, other: &ChunkType) -> bool {
        self@ == other@
    }
}

impl Eq for ChunkType {

}

impl TryFrom<[u8; 4]> for ChunkType {
    type Error = PngError;

    fn try_from(bytes: [u8; 4]) -> (r: Result<ChunkType, PngError>)
        ensures
            r is Ok <==> is_type_code(bytes@),
            r matches Ok(t) ==> t@ == bytes@,
            r matches Err(e) ==> e == PngError::InvalidTypeCode,
    {
        match ChunkType::from_bytes(bytes) {
            Ok(t) => {
                assert(t.type_bytes =~= bytes);
                Ok(t)
            },
            Err(e) => Err(e),
        }
    }
}

impl vstd::std_specs::convert::TryFromSpecImpl<[u8; 4]> for ChunkType {
    open spec fn obeys_try_from_spec() -> bool {
        true
    }

    closed spec fn try_from_spec(bytes: [u8; 4]) -> Result<ChunkType, PngError> {
        if is_type_code(bytes@) {
            Ok(ChunkType { type_bytes: bytes })
        } else {
            Err(PngError::InvalidTypeCode)
        }
    }
}

impl core::str::FromStr for ChunkType {
    type Err = PngError;

    fn from_str(s: &str) -> (r: Result<ChunkType, PngError>) {
        ChunkType::from_str(s)
    }
}

/// What converting four bytes into a type code gives: success exactly when all
/// four are ASCII letters, keeping them, and `InvalidTypeCode` otherwise.
pub proof fn lemma_try_from_bytes(bytes: [u8; 4])
    ensures
        <ChunkType as TryFromSpec<[u8; 4]>>::try_from_spec(bytes) is Ok <==> is_type_code(bytes@),
        <ChunkType as TryFromSpec<[u8; 4]>>::try_from_spec(bytes) matches Ok(t) ==> t@ == bytes@,
        <ChunkType as TryFromSpec<[u8; 4]>>::try_from_spec(bytes) matches Err(e) ==> e
            == PngError::InvalidTypeCode,
{
}

} // verus!
