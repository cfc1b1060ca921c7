//! Four-byte chunk type codes and the properties encoded in the case of each byte.
use vstd::prelude::*;
use vstd::string::StringSliceAdditionalSpecFns;
use vstd::utf8::{decode_utf8, valid_utf8};

verus! {

/// True when `b` is an ASCII capital letter.
pub open spec fn is_upper(b: u8) -> bool {
    65 <= b <= 90
}

/// True when `b` is an ASCII small letter.
pub open spec fn is_lower(b: u8) -> bool {
    97 <= b <= 122
}

/// True when `b` is an ASCII letter of either case.
pub open spec fn is_alpha(b: u8) -> bool {
    is_upper(b) || is_lower(b)
}

/// Every byte of `s` is an ASCII letter.
pub open spec fn all_alpha(s: Seq<u8>) -> bool {
    forall|i: int| 0 <= i < s.len() ==> is_alpha(#[trigger] s[i])
}

/// A type code that the format accepts: four letters, the third one capital.
pub open spec fn valid_code(s: Seq<u8>) -> bool {
    s.len() == 4 && all_alpha(s) && is_upper(s[2])
}

/// The text that `String::from_utf8_lossy` makes of `bytes`.
pub uninterp spec fn lossy_text(bytes: Seq<u8>) -> Seq<char>;

/// Relies on `String::from_utf8_lossy`: the text depends on the bytes alone,
/// and valid UTF-8 is decoded as it stands.
#[verifier::external_body]
fn utf8_lossy(bytes: &[u8]) -> (r: String)
    ensures
        r@ == lossy_text(bytes@),
        valid_utf8(bytes@) ==> r@ == decode_utf8(bytes@),
{
    String::from_utf8_lossy(bytes).into_owned()
}

/// Errors of reading a chunk type code from text.
#[derive(Debug, Clone, Copy, PartialEq, Eq, Structural)]
pub enum ChunkTypeError {
    /// A byte of the code is not an ASCII letter.
    NonAsciiCharFound,
    /// The text is not exactly four bytes long.
    InvalidLength,
}

/// The four-byte identifier of a chunk.
#[derive(Debug, Clone, Copy)]
pub struct ChunkType {
    /// The code's bytes, in order.
    pub bytes: [u8; 4],
}

impl View for ChunkType {
    type V = Seq<u8>;

    open spec fn view(&self) -> Seq<u8> {
        self.bytes@
    }
}

impl PartialEq for ChunkType {
    fn eq(&self, other: &ChunkType) -> (r: bool) {
        let r = self.bytes[0] == other.bytes[0] && self.bytes[1] == other.bytes[1]
            && self.bytes[2] == other.bytes[2] && self.bytes[3] == other.bytes[3];
        assert(r ==> self@ =~= other@);
        r
    }
}

impl vstd::std_specs::cmp::PartialEqSpecImpl for ChunkType {
    open spec fn obeys_eq_spec() -> bool {
        true
    }

    open spec fn eq_spec(&self, other: &ChunkType) -> bool {
        self@ == other@
    }
}

impl Eq for ChunkType {

}

fn byte_is_upper(b: u8) -> (r: bool)
    ensures
        r == is_upper(b),
{
    65 <= b && b <= 90
}

fn byte_is_lower(b: u8) -> (r: bool)
    ensures
        r == is_lower(b),
{
    97 <= b && b <= 122
}

fn byte_is_alpha(b: u8) -> (r: bool)
    ensures
        r == is_alpha(b),
{
    byte_is_upper(b) || byte_is_lower(b)
}

impl ChunkType {
    /// Builds a code from four bytes as they are, without any check.
    pub fn from_raw_bytes(bytes: [u8; 4]) -> (r: ChunkType)
        ensures
            r@ == bytes@,
    {
        ChunkType { bytes }
    }

    /// Reads a code from text: exactly four bytes, each an ASCII letter. The case
    /// of the third byte is not checked here (see `is_valid`).
    pub fn parse(s: &str) -> (r: Result<ChunkType, ChunkTypeError>)
        ensures
            s.spec_bytes().len() != 4 ==> r == Err::<ChunkType, _>(ChunkTypeError::InvalidLength),
            s.spec_bytes().len() == 4 && !all_alpha(s.spec_bytes()) ==> r == Err::<ChunkType, _>(
                ChunkTypeError::NonAsciiCharFound,
            ),
            s.spec_bytes().len() == 4 && all_alpha(s.spec_bytes()) ==> (r matches Ok(t)
                && t@ == s.spec_bytes()),
    {
        if s.len() != 4 {
            return Err(ChunkTypeError::InvalidLength);
        }
        let b = s.as_bytes();
        let code = ChunkType { bytes: [b[0], b[1], b[2], b[3]] };
        assert(code@ =~= s.spec_bytes());
        if !code.is_valid_byte() {
            return Err(ChunkTypeError::NonAsciiCharFound);
        }
        Ok(code)
    }

    /// The code as text; bytes that are not valid UTF-8 become replacement
    /// characters rather than a failure.
    pub fn to_string(&self) -> (r: String)
        ensures
            r@ == lossy_text(self@),
            valid_utf8(self@) ==> r@ == decode_utf8(self@),
    {
        utf8_lossy(self.bytes.as_slice())
    }

    /// The four bytes of the code.
    pub fn bytes(&self) -> (r: [u8; 4])
        ensures
            r@ == self@,
    {
        self.bytes
    }

    /// True when all four bytes are ASCII letters.
    pub fn is_valid_byte(&self) -> (r: bool)
        ensures
            r == all_alpha(self@),
    {
        let r = byte_is_alpha(self.bytes[0]) && byte_is_alpha(self.bytes[1]) && byte_is_alpha(
            self.bytes[2],
        ) && byte_is_alpha(self.bytes[3]);
        assert(r ==> all_alpha(self@)) by {
            if r {
                assert forall|i: int| 0 <= i < self@.len() implies is_alpha(#[trigger] self@[i]) by {
                    assert(i == 0 || i == 1 || i == 2 || i == 3);
                }
            }
        }
        r
    }

    /// True when the code is one the format accepts: four ASCII letters with
    /// the reserved (third) byte capital.
    pub fn is_valid(&self) -> (r: bool)
        ensures
            r == valid_code(self@),
    {
        self.is_reserved_bit_valid() && self.is_valid_byte()
    }

    /// The first byte is capital: the chunk is needed to display the image.
    pub fn is_critical(&self) -> (r: bool)
        ensures
            r == is_upper(self@[0]),
    {
        byte_is_upper(self.bytes[0])
    }

    /// The second byte is capital: the chunk type is a public one.
    pub fn is_public(&self) -> (r: bool)
        ensures
            r == is_upper(self@[1]),
    {
        byte_is_upper(self.bytes[1])
    }

    /// The third byte is capital, as the current format revision demands.
    pub fn is_reserved_bit_valid(&self) -> (r: bool)
        ensures
            r == is_upper(self@[2]),
    {
        byte_is_upper(self.bytes[2])
    }

    /// The fourth byte is small: editors may copy the chunk into a modified image.
    pub fn is_safe_to_copy(&self) -> (r: bool)
        ensures
            r == is_lower(self@[3]),
    {
        byte_is_lower(self.bytes[3])
    }
}

impl std::str::FromStr for ChunkType {
    type Err = ChunkTypeError;

    fn from_str(s: &str) -> Result<ChunkType, ChunkTypeError> {
        ChunkType::parse(s)
    }
}

impl TryFrom<[u8; 4]> for ChunkType {
    type Error = ChunkTypeError;

    fn try_from(bytes: [u8; 4]) -> Result<ChunkType, ChunkTypeError> {
        Ok(ChunkType { bytes })
    }
}

impl vstd::std_specs::convert::TryFromSpecImpl<[u8; 4]> for ChunkType {
    open spec fn obeys_try_from_spec() -> bool {
        true
    }

    open spec fn try_from_spec(bytes: [u8; 4]) -> Result<ChunkType, ChunkTypeError> {
        Ok(ChunkType { bytes })
    }
}

} // verus!
