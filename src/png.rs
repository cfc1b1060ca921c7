//! The PNG container: the fixed signature followed by a sequence of chunks.
use crate::chunk::{chunk_text, debug_bytes, debug_text, encode_chunk, lemma_encoded_fields, lemma_parse_encoded, parse_record, Chunk, ChunkError};
use crate::chunk_type::valid_code;
use vstd::prelude::*;
use vstd::string::{StringExecFns, StringSliceAdditionalSpecFns};

verus! {

/// The eight bytes that open every PNG stream.
pub const STANDARD_HEADER: [u8; 8] = [137, 80, 78, 71, 13, 10, 26, 10];

/// The signature as a sequence.
pub open spec fn signature() -> Seq<u8> {
    seq![137u8, 80u8, 78u8, 71u8, 13u8, 10u8, 26u8, 10u8]
}

/// Errors of reading a container or of removing a chunk from it.
#[derive(Debug, Clone, Copy, PartialEq, Eq, Structural)]
pub enum PngError {
    /// The buffer does not start with the PNG signature.
    InvalidSignature,
    /// A chunk record after the signature failed to read.
    Chunk(ChunkError),
    /// No chunk has the requested type.
    NotFound,
}

/// The records of the chunks `s`, one after another.
pub open spec fn encode_chunks(s: Seq<(Seq<u8>, Seq<u8>)>) -> Seq<u8>
    decreases s.len(),
{
    if s.len() == 0 {
        Seq::empty()
    } else {
        encode_chunk(s[0].0, s[0].1) + encode_chunks(s.drop_first())
    }
}

/// The serialized container holding the chunks `s`.
pub open spec fn encode_png(s: Seq<(Seq<u8>, Seq<u8>)>) -> Seq<u8> {
    signature() + encode_chunks(s)
}

/// The chunks of a buffer that holds nothing but chunk records, or the error
/// of the first record that fails to read.
pub open spec fn parse_chunks(b: Seq<u8>) -> Result<Seq<(Seq<u8>, Seq<u8>)>, ChunkError>
    decreases b.len(),
{
    if b.len() == 0 {
        Ok(Seq::empty())
    } else {
        match parse_record(b) {
            Err(e) => Err(e),
            Ok(c) => match parse_chunks(b.subrange(12 + c.1.len() as int, b.len() as int)) {
                Ok(rest) => Ok(seq![c] + rest),
                Err(e) => Err(e),
            },
        }
    }
}

/// The rendering of the chunks `s`, one line each.
pub open spec fn chunks_text(s: Seq<(Seq<u8>, Seq<u8>)>) -> Seq<char>
    decreases s.len(),
{
    if s.len() == 0 {
        Seq::empty()
    } else {
        chunk_text(s[0].0, s[0].1) + "\n"@ + chunks_text(s.drop_first())
    }
}

/// The rendering of a container holding the chunks `s`: the signature's bytes
/// on the first line, then one line per chunk.
pub open spec fn png_text(s: Seq<(Seq<u8>, Seq<u8>)>) -> Seq<char> {
    "signature: "@ + debug_text(signature()) + "\n"@ + chunks_text(s)
}

/// `res` with `acc` put in front of the chunks it holds.
pub open spec fn prepend(
    acc: Seq<(Seq<u8>, Seq<u8>)>,
    res: Result<Seq<(Seq<u8>, Seq<u8>)>, ChunkError>,
) -> Result<Seq<(Seq<u8>, Seq<u8>)>, ChunkError> {
    match res {
        Ok(s) => Ok(acc + s),
        Err(e) => Err(e),
    }
}

/// The outcome of reading a whole container from `b`.
pub open spec fn parse_png(b: Seq<u8>) -> Result<Seq<(Seq<u8>, Seq<u8>)>, PngError> {
    if b.len() < 8 || b.subrange(0, 8) != signature() {
        Err(PngError::InvalidSignature)
    } else {
        match parse_chunks(b.subrange(8, b.len() as int)) {
            Ok(s) => Ok(s),
            Err(e) => Err(PngError::Chunk(e)),
        }
    }
}

/// Every chunk of `s` has a valid type code and a payload whose length fits
/// the length field.
pub open spec fn all_encodable(s: Seq<(Seq<u8>, Seq<u8>)>) -> bool {
    forall|i: int| 0 <= i < s.len() ==> valid_code(#[trigger] s[i].0) && s[i].1.len() <= u32::MAX
}

/// The records of chunks with valid type codes read back as those chunks.
pub proof fn lemma_parse_chunks_encoded(s: Seq<(Seq<u8>, Seq<u8>)>)
    requires
        all_encodable(s),
    ensures
        parse_chunks(encode_chunks(s)) == Ok::<_, ChunkError>(s),
    decreases s.len(),
{
    if s.len() > 0 {
        let rest = s.drop_first();
        assert(valid_code(s[0].0));
        assert forall|i: int| 0 <= i < rest.len() implies valid_code(#[trigger] rest[i].0)
            && rest[i].1.len() <= u32::MAX by {
            assert(rest[i] == s[i + 1]);
        }
        lemma_parse_chunks_encoded(rest);
        let b = encode_chunks(s);
        let head = encode_chunk(s[0].0, s[0].1);
        lemma_parse_encoded(s[0].0, s[0].1, encode_chunks(rest));
        lemma_encoded_fields(s[0].0, s[0].1);
        assert(b.subrange(12 + s[0].1.len() as int, b.len() as int) =~= encode_chunks(rest));
        assert(seq![(s[0].0, s[0].1)] + rest =~= s);
    } else {
        assert(encode_chunks(s) =~= Seq::<u8>::empty());
        assert(s =~= Seq::empty());
    }
}

/// Container round trip: the serialized form of a container whose chunks have
/// valid type codes reads back as the same chunks, in the same order.
pub proof fn lemma_png_round_trip(s: Seq<(Seq<u8>, Seq<u8>)>)
    requires
        all_encodable(s),
    ensures
        parse_png(encode_png(s)) == Ok::<_, PngError>(s),
{
    let b = encode_png(s);
    lemma_parse_chunks_encoded(s);
    assert(b.subrange(0, 8) =~= signature());
    assert(b.subrange(8, b.len() as int) =~= encode_chunks(s));
}

/// True when the chunk at `i` is the first of `s` whose type bytes are `t`.
pub open spec fn is_first_of_type(s: Seq<(Seq<u8>, Seq<u8>)>, t: Seq<u8>, i: int) -> bool {
    &&& 0 <= i < s.len()
    &&& s[i].0 == t
    &&& forall|j: int| 0 <= j < i ==> s[j].0 != t
}

/// No chunk of `s` has the type bytes `t`.
pub open spec fn lacks_type(s: Seq<(Seq<u8>, Seq<u8>)>, t: Seq<u8>) -> bool {
    forall|j: int| 0 <= j < s.len() ==> s[j].0 != t
}

/// A PNG image as the ordered chunks that follow its signature.
#[derive(Debug, Clone)]
pub struct Png {
    chunks: Vec<Chunk>,
}

impl View for Png {
    /// The type bytes and payload of each chunk, in order.
    type V = Seq<(Seq<u8>, Seq<u8>)>;

    closed spec fn view(&self) -> Seq<(Seq<u8>, Seq<u8>)> {
        self.chunks@.map_values(|c: Chunk| c@)
    }
}

impl Png {
    /// Every payload's length fits the four-byte length field.
    pub open spec fn wf(&self) -> bool {
        forall|i: int| 0 <= i < self@.len() ==> #[trigger] self@[i].1.len() <= u32::MAX
    }

    /// A container holding `chunks` in the given order.
    pub fn from_chunks(chunks: Vec<Chunk>) -> (r: Png)
        requires
            forall|i: int| 0 <= i < chunks@.len() ==> #[trigger] chunks@[i].wf(),
        ensures
            r@ == chunks@.map_values(|c: Chunk| c@),
            r.wf(),
    {
        let r = Png { chunks };
        assert forall|i: int| 0 <= i < r@.len() implies #[trigger] r@[i].1.len() <= u32::MAX by {
            assert(r@[i] == chunks@[i]@ && chunks@[i].wf());
        }
        r
    }

    /// Reads a container: the signature, then chunk records up to the end of
    /// `bytes`. Any record that fails to read fails the whole container.
    pub fn parse(bytes: &[u8]) -> (r: Result<Png, PngError>)
        ensures
            match r {
                Ok(p) => parse_png(bytes@) == Ok::<_, PngError>(p@) && p.wf(),
                Err(e) => parse_png(bytes@) == Err::<Seq<(Seq<u8>, Seq<u8>)>, _>(e),
            },
    {
        if bytes.len() < 8 {
            return Err(PngError::InvalidSignature);
        }
        let mut k: usize = 0;
        while k < 8
            invariant
                k <= 8 <= bytes@.len(),
                forall|j: int| 0 <= j < k ==> bytes@[j] == signature()[j],
            decreases 8 - k,
        {
            if bytes[k] != STANDARD_HEADER[k] {
                assert(bytes@.subrange(0, 8)[k as int] != signature()[k as int]);
                return Err(PngError::InvalidSignature);
            }
            k = k + 1;
        }
        assert(bytes@.subrange(0, 8) =~= signature());
        let ghost body = bytes@.subrange(8, bytes@.len() as int);
        let mut chunks: Vec<Chunk> = Vec::new();
        let mut pos: usize = 8;
        assert(prepend(Seq::empty(), parse_chunks(body)) =~= parse_chunks(body)) by {
            if let Ok(s) = parse_chunks(body) {
                assert(Seq::<(Seq<u8>, Seq<u8>)>::empty() + s =~= s);
            }
        }
        while pos < bytes.len()
            invariant
                8 <= pos <= bytes@.len(),
                bytes@.subrange(0, 8) == signature(),
                body == bytes@.subrange(8, bytes@.len() as int),
                forall|i: int| 0 <= i < chunks@.len() ==> #[trigger] chunks@[i].wf(),
                parse_chunks(body) == prepend(
                    chunks@.map_values(|c: Chunk| c@),
                    parse_chunks(bytes@.subrange(pos as int, bytes@.len() as int)),
                ),
            decreases bytes@.len() - pos,
        {
            let rest = vstd::slice::slice_subrange(bytes, pos, bytes.len());
            match Chunk::parse(rest) {
                Err(e) => {
                    assert(parse_chunks(rest@) == Err::<Seq<(Seq<u8>, Seq<u8>)>, _>(e));
                    return Err(PngError::Chunk(e));
                },
                Ok(c) => {
                    let ghost acc = chunks@.map_values(|c: Chunk| c@);
                    let ghost prev = chunks@;
                    let ghost next = (pos + 12 + c@.1.len()) as int;
                    assert(rest@.subrange(12 + c@.1.len() as int, rest@.len() as int)
                        =~= bytes@.subrange(next, bytes@.len() as int));
                    pos = pos + 12 + c.length() as usize;
                    chunks.push(c);
                    assert(chunks@.map_values(|c: Chunk| c@) =~= acc.push(c@));
                    assert forall|i: int| 0 <= i < chunks@.len() implies #[trigger] chunks@[i].wf() by {
                        if i < chunks@.len() - 1 {
                            assert(chunks@[i] == prev[i]);
                        }
                    }
                    proof {
                        if let Ok(s) = parse_chunks(bytes@.subrange(next, bytes@.len() as int)) {
                            assert(acc + (seq![c@] + s) =~= acc.push(c@) + s);
                        }
                    }
                },
            }
        }
        let ghost acc = chunks@.map_values(|c: Chunk| c@);
        assert(acc + Seq::empty() =~= acc);
        Ok(Png::from_chunks(chunks))
    }

    /// Adds `chunk` after the last chunk.
    pub fn append_chunk(&mut self, chunk: Chunk)
        requires
            old(self).wf(),
            chunk.wf(),
        ensures
            final(self)@ == old(self)@.push(chunk@),
            final(self).wf(),
    {
        self.chunks.push(chunk);
        assert(self@ =~= old(self)@.push(chunk@));
    }

    /// The index of the first chunk whose type code is the bytes of `chunk_type`.
    pub fn find_by_chunk(&self, chunk_type: &str) -> (r: Option<usize>)
        ensures
            match r {
                Some(i) => is_first_of_type(self@, chunk_type.spec_bytes(), i as int),
                None => lacks_type(self@, chunk_type.spec_bytes()),
            },
    {
        let wanted = chunk_type.as_bytes();
        let mut i: usize = 0;
        while i < self.chunks.len()
            invariant
                i <= self@.len(),
                self@.len() == self.chunks@.len(),
                wanted@ == chunk_type.spec_bytes(),
                forall|j: int| 0 <= j < i ==> self@[j].0 != wanted@,
            decreases self@.len() - i,
        {
            let code = self.chunks[i].chunk_type().bytes();
            assert(self@[i as int] == self.chunks@[i as int]@);
            if wanted.len() == 4 && code[0] == wanted[0] && code[1] == wanted[1] && code[2]
                == wanted[2] && code[3] == wanted[3] {
                assert(code@ =~= wanted@);
                return Some(i);
            }
            assert(code@ != wanted@) by {
                if code@ == wanted@ {
                    assert(code@[0] == wanted@[0] && code@[3] == wanted@[3]);
                }
            }
            i = i + 1;
        }
        None
    }

    /// Takes out the first chunk whose type code is the bytes of `chunk_type`,
    /// keeping the others in order; `NotFound` when there is none.
    pub fn remove_first_chunk(&mut self, chunk_type: &str) -> (r: Result<Chunk, PngError>)
        requires
            old(self).wf(),
        ensures
            final(self).wf(),
            match r {
                Ok(c) => exists|i: int|
                    is_first_of_type(old(self)@, chunk_type.spec_bytes(), i) && c@ == old(self)@[i]
                        && final(self)@ == old(self)@.remove(i),
                Err(e) => e == PngError::NotFound && lacks_type(old(self)@, chunk_type.spec_bytes())
                    && final(self)@ == old(self)@,
            },
            r is Ok ==> final(self)@.len() == old(self)@.len() - 1,
    {
        match self.find_by_chunk(chunk_type) {
            Some(i) => {
                let c = self.chunks.remove(i);
                assert(self@ =~= old(self)@.remove(i as int));
                Ok(c)
            },
            None => Err(PngError::NotFound),
        }
    }

    /// The signature that opens every container.
    pub fn header(&self) -> (r: [u8; 8])
        ensures
            r@ == signature(),
    {
        let r = STANDARD_HEADER;
        assert(r@ =~= signature());
        r
    }

    /// The chunks, in order.
    pub fn chunks(&self) -> (r: &[Chunk])
        ensures
            r@.map_values(|c: Chunk| c@) == self@,
    {
        self.chunks.as_slice()
    }

    /// A human-readable dump: the signature, then each chunk's rendering.
    pub fn to_string(&self) -> (r: String)
        ensures
            r@ == png_text(self@),
    {
        let mut text = String::from_str("signature: ");
        let sig = self.header();
        let sig_text = debug_bytes(sig.as_slice());
        text.append(sig_text.as_str());
        text.append("\n");
        assert(self@.skip(0) =~= self@);
        let mut i: usize = 0;
        while i < self.chunks.len()
            invariant
                i <= self@.len(),
                self@.len() == self.chunks@.len(),
                text@ + chunks_text(self@.skip(i as int)) == png_text(self@),
            decreases self@.len() - i,
        {
            let ghost before = text@;
            assert(self@[i as int] == self.chunks@[i as int]@);
            let line = self.chunks[i].to_string();
            text.append(line.as_str());
            text.append("\n");
            assert(self@.skip(i as int).drop_first() =~= self@.skip(i + 1));
            assert(text@ + chunks_text(self@.skip(i + 1)) =~= before + chunks_text(
                self@.skip(i as int),
            ));
            i = i + 1;
        }
        assert(text@ + chunks_text(self@.skip(i as int)) =~= text@);
        text
    }

    /// The signature followed by the record of every chunk, in order.
    pub fn as_bytes(&self) -> (r: Vec<u8>)
        requires
            self.wf(),
        ensures
            r@ == encode_png(self@),
    {
        let mut out: Vec<u8> = Vec::new();
        let sig = self.header();
        crate::bytes::push_all(&mut out, sig.as_slice());
        assert(self@.skip(0) =~= self@);
        let mut i: usize = 0;
        while i < self.chunks.len()
            invariant
                i <= self@.len(),
                self@.len() == self.chunks@.len(),
                self.wf(),
                out@ + encode_chunks(self@.skip(i as int)) == encode_png(self@),
            decreases self@.len() - i,
        {
            let ghost before = out@;
            assert(self@[i as int] == self.chunks@[i as int]@);
            assert(self.chunks@[i as int].wf());
            let record = self.chunks[i].as_bytes();
            crate::bytes::push_all(&mut out, record.as_slice());
            assert(self@.skip(i as int).drop_first() =~= self@.skip(i + 1));
            assert(out@ + encode_chunks(self@.skip(i + 1)) =~= before + encode_chunks(
                self@.skip(i as int),
            ));
            i = i + 1;
        }
        assert(out@ + encode_chunks(self@.skip(i as int)) =~= out@);
        out
    }
}

impl<'a> TryFrom<&'a [u8]> for Png {
    type Error = PngError;

    fn try_from(bytes: &'a [u8]) -> Result<Png, PngError> {
        Png::parse(bytes)
    }
}

impl<'a> vstd::std_specs::convert::TryFromSpecImpl<&'a [u8]> for Png {
    /// A container owns a `Vec`, which no spec expression can build; what is
    /// returned is stated by `Png::parse`.
    open spec fn obeys_try_from_spec() -> bool {
        false
    }

    open spec fn try_from_spec(bytes: &'a [u8]) -> Result<Png, PngError> {
        Err(PngError::InvalidSignature)
    }
}

} // verus!
