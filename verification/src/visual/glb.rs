//! The binary glTF container: a header and chunks of JSON and binary data.
use crate::text::{decimal_text, push_decimal};
use vstd::prelude::*;

verus! {

/// The first word of a container.
pub const GLB_MAGIC: u32 = 0x4654_6C67;

/// The kind of the chunk that holds JSON.
pub const GLB_JSON_CHUNK: u32 = 0x4E4F_534A;

/// The kind of the chunk that holds binary data.
pub const GLB_BIN_CHUNK: u32 = 0x004E_4942;

/// The chunks of a container. They borrow the caller's input.
#[derive(Clone, Copy, Debug, PartialEq, Eq)]
pub struct Glb<'a> {
    pub json: &'a [u8],
    pub binary: Option<&'a [u8]>,
}

/// Why a container is refused.
#[derive(Clone, Copy, Debug, PartialEq, Eq, Structural)]
pub enum GlbError {
    TooShort,
    BadMagic,
    UnsupportedVersion(u32),
    LengthMismatch,
    TruncatedChunk,
    MissingJson,
    DuplicateJson,
    DuplicateBinary,
    UnknownChunk(u32),
}

/// The digit that writes a number below sixteen.
pub open spec fn hex_character(number: nat) -> char {
    if number < 10 {
        ('0' as u32 + number) as char
    } else {
        ('a' as u32 + number - 10) as char
    }
}

/// The hexadecimal digits of a number, without leading zeros.
pub open spec fn hex_text(number: nat) -> Seq<char>
    decreases number,
{
    if number < 16 {
        seq![hex_character(number)]
    } else {
        hex_text(number / 16).push(hex_character(number % 16))
    }
}

/// Appends the hexadecimal digits of a number.
fn push_hex(text: &mut String, number: u32)
    ensures
        final(text)@ == old(text)@ + hex_text(number as nat),
    decreases number,
{
    if number >= 16 {
        push_hex(text, number / 16);
    }
    let rest: u8 = (number % 16) as u8;
    let digit: u8 = if rest < 10 {
        0x30 + rest
    } else {
        0x57 + rest
    };
    text.push(digit as char);
    proof {
        assert(digit as char == hex_character((number % 16) as nat));
        if number < 16 {
            assert(text@ =~= old(text)@ + seq![hex_character(number as nat)]);
        } else {
            assert(text@ =~= old(text)@ + hex_text(number as nat / 16).push(
                hex_character((number % 16) as nat),
            ));
        }
    }
}

impl GlbError {
    /// The sentence for a log.
    pub open spec fn sentence(self) -> Seq<char> {
        match self {
            GlbError::TooShort => "GLB is shorter than its header"@,
            GlbError::BadMagic => "GLB magic is invalid"@,
            GlbError::UnsupportedVersion(version) => "unsupported GLB version "@ + decimal_text(
                version as nat,
            ),
            GlbError::LengthMismatch => "GLB declared length does not match input"@,
            GlbError::TruncatedChunk => "GLB chunk exceeds input"@,
            GlbError::MissingJson => "GLB has no JSON chunk"@,
            GlbError::DuplicateJson => "GLB has more than one JSON chunk"@,
            GlbError::DuplicateBinary => "GLB has more than one binary chunk"@,
            GlbError::UnknownChunk(kind) => "unknown GLB chunk type 0x"@ + hex_text(kind as nat),
        }
    }

    /// The sentence for a log.
    pub fn message(&self) -> (message: String)
        ensures
            message@ == self.sentence(),
    {
        match self {
            GlbError::TooShort => String::from_str("GLB is shorter than its header"),
            GlbError::BadMagic => String::from_str("GLB magic is invalid"),
            GlbError::UnsupportedVersion(version) => {
                let mut message = String::from_str("unsupported GLB version ");
                push_decimal(&mut message, *version as u64);
                message
            },
            GlbError::LengthMismatch => String::from_str(
                "GLB declared length does not match input",
            ),
            GlbError::TruncatedChunk => String::from_str("GLB chunk exceeds input"),
            GlbError::MissingJson => String::from_str("GLB has no JSON chunk"),
            GlbError::DuplicateJson => String::from_str("GLB has more than one JSON chunk"),
            GlbError::DuplicateBinary => String::from_str("GLB has more than one binary chunk"),
            GlbError::UnknownChunk(kind) => {
                let mut message = String::from_str("unknown GLB chunk type 0x");
                push_hex(&mut message, *kind);
                message
            },
        }
    }
}

/// The number that four bytes write, the smallest place first.
pub open spec fn word(bytes: Seq<u8>, at: int) -> u32 {
    (bytes[at] + bytes[at + 1] * 0x100 + bytes[at + 2] * 0x1_0000 + bytes[at + 3]
        * 0x100_0000) as u32
}

/// The number that four bytes write, the smallest place first.
pub fn le_u32(bytes: &[u8], at: usize) -> (number: u32)
    requires
        at + 4 <= bytes@.len(),
    ensures
        number == word(bytes@, at as int),
{
    bytes[at] as u32 + bytes[at + 1] as u32 * 0x100 + bytes[at + 2] as u32 * 0x1_0000 + bytes[at
        + 3] as u32 * 0x100_0000
}

/// What the chunks from a place on hold, behind chunks that held `json` and
/// `binary`. Each chunk is a length, a kind and so many bytes; there is one
/// JSON chunk, at most one binary chunk, and no other.
pub open spec fn chunks_from(
    bytes: Seq<u8>,
    offset: int,
    json: Option<Seq<u8>>,
    binary: Option<Seq<u8>>,
) -> Result<(Seq<u8>, Option<Seq<u8>>), GlbError>
    decreases bytes.len() - offset,
{
    if offset >= bytes.len() {
        match json {
            Some(json) => Ok((json, binary)),
            None => Err(GlbError::MissingJson),
        }
    } else if offset + 8 > bytes.len() {
        Err(GlbError::TruncatedChunk)
    } else {
        let end = offset + 8 + word(bytes, offset);
        let kind = word(bytes, offset + 4);
        let data = bytes.subrange(offset + 8, end);
        if end > bytes.len() {
            Err(GlbError::TruncatedChunk)
        } else if kind == GLB_JSON_CHUNK {
            if json is Some {
                Err(GlbError::DuplicateJson)
            } else {
                chunks_from(bytes, end, Some(data), binary)
            }
        } else if kind == GLB_BIN_CHUNK {
            if binary is Some {
                Err(GlbError::DuplicateBinary)
            } else {
                chunks_from(bytes, end, json, Some(data))
            }
        } else {
            Err(GlbError::UnknownChunk(kind))
        }
    }
}

/// What a container holds.
pub open spec fn glb_contents(bytes: Seq<u8>) -> Result<(Seq<u8>, Option<Seq<u8>>), GlbError> {
    if bytes.len() < 12 {
        Err(GlbError::TooShort)
    } else if word(bytes, 0) != GLB_MAGIC {
        Err(GlbError::BadMagic)
    } else if word(bytes, 4) != 2 {
        Err(GlbError::UnsupportedVersion(word(bytes, 4)))
    } else if word(bytes, 8) != bytes.len() {
        Err(GlbError::LengthMismatch)
    } else {
        chunks_from(bytes, 12, None, None)
    }
}

/// The bytes of an optional chunk.
pub open spec fn contents_of(chunk: Option<&[u8]>) -> Option<Seq<u8>> {
    match chunk {
        Some(data) => Some(data@),
        None => None,
    }
}

/// Validates GLB v2 framing without unchecked casts, pointer arithmetic, or
/// allocation. The returned slices borrow the caller's input.
pub fn parse_glb<'a>(bytes: &'a [u8]) -> (result: Result<Glb<'a>, GlbError>)
    ensures
        match result {
            Ok(glb) => glb_contents(bytes@) == Ok::<(Seq<u8>, Option<Seq<u8>>), GlbError>(
                (glb.json@, contents_of(glb.binary)),
            ),
            Err(problem) => glb_contents(bytes@) == Err::<(Seq<u8>, Option<Seq<u8>>), GlbError>(
                problem,
            ),
        },
{
    if bytes.len() < 12 {
        return Err(GlbError::TooShort);
    }
    if le_u32(bytes, 0) != GLB_MAGIC {
        return Err(GlbError::BadMagic);
    }
    let version: u32 = le_u32(bytes, 4);
    if version != 2 {
        return Err(GlbError::UnsupportedVersion(version));
    }
    if le_u32(bytes, 8) as usize != bytes.len() {
        return Err(GlbError::LengthMismatch);
    }
    let mut offset: usize = 12;
    let mut json: Option<&'a [u8]> = None;
    let mut binary: Option<&'a [u8]> = None;
    while offset < bytes.len()
        invariant
            12 <= offset <= bytes@.len(),
            glb_contents(bytes@) == chunks_from(
                bytes@,
                offset as int,
                contents_of(json),
                contents_of(binary),
            ),
        decreases bytes@.len() - offset,
    {
        if bytes.len() - offset < 8 {
            return Err(GlbError::TruncatedChunk);
        }
        let length: usize = le_u32(bytes, offset) as usize;
        let kind: u32 = le_u32(bytes, offset + 4);
        let start: usize = offset + 8;
        if bytes.len() - start < length {
            return Err(GlbError::TruncatedChunk);
        }
        let data = vstd::slice::slice_subrange(bytes, start, start + length);
        if kind == GLB_JSON_CHUNK {
            if json.is_some() {
                return Err(GlbError::DuplicateJson);
            }
            json = Some(data);
        } else if kind == GLB_BIN_CHUNK {
            if binary.is_some() {
                return Err(GlbError::DuplicateBinary);
            }
            binary = Some(data);
        } else {
            return Err(GlbError::UnknownChunk(kind));
        }
        offset = start + length;
    }
    match json {
        Some(json) => Ok(Glb { json, binary }),
        None => Err(GlbError::MissingJson),
    }
}

/// A number as four bytes, the smallest place first.
#[verifier::opaque]
pub open spec fn word_bytes(number: int) -> Seq<u8> {
    seq![
        (number % 0x100) as u8,
        (number / 0x100 % 0x100) as u8,
        (number / 0x1_0000 % 0x100) as u8,
        (number / 0x100_0000 % 0x100) as u8,
    ]
}

/// A chunk: its length, its kind and its bytes.
pub open spec fn chunk_bytes(kind: u32, data: Seq<u8>) -> Seq<u8> {
    word_bytes(data.len() as int) + word_bytes(kind as int) + data
}

/// The chunks of a container with its JSON in front.
pub open spec fn body_bytes(json: Seq<u8>, binary: Option<Seq<u8>>) -> Seq<u8> {
    match binary {
        Some(binary) => chunk_bytes(GLB_JSON_CHUNK, json) + chunk_bytes(GLB_BIN_CHUNK, binary),
        None => chunk_bytes(GLB_JSON_CHUNK, json),
    }
}

/// A container.
pub open spec fn glb_bytes(json: Seq<u8>, binary: Option<Seq<u8>>) -> Seq<u8> {
    word_bytes(GLB_MAGIC as int) + word_bytes(2) + word_bytes(
        12 + body_bytes(json, binary).len() as int,
    ) + body_bytes(json, binary)
}

proof fn four_bytes(number: int)
    ensures
        word_bytes(number).len() == 4,
{
    reveal(word_bytes);
}

/// A number that was written is read back, wherever it stands.
proof fn word_round_trip(bytes: Seq<u8>, at: int, number: int)
    requires
        0 <= number <= u32::MAX,
        0 <= at,
        at + 4 <= bytes.len(),
        bytes.subrange(at, at + 4) == word_bytes(number),
    ensures
        word(bytes, at) == number,
{
    reveal(word_bytes);
    let four = bytes.subrange(at, at + 4);
    assert(bytes[at] == four[0]);
    assert(bytes[at + 1] == four[1]);
    assert(bytes[at + 2] == four[2]);
    assert(bytes[at + 3] == four[3]);
    assert(number == number % 0x100 + (number / 0x100 % 0x100) * 0x100 + (number / 0x1_0000 % 0x100)
        * 0x1_0000 + (number / 0x100_0000 % 0x100) * 0x100_0000);
}

/// A chunk that was written is read back, wherever it stands.
proof fn chunk_round_trip(bytes: Seq<u8>, offset: int, kind: u32, data: Seq<u8>)
    requires
        0 <= offset,
        offset + 8 + data.len() <= bytes.len() <= u32::MAX,
        bytes.subrange(offset, offset + 8 + data.len()) == chunk_bytes(kind, data),
    ensures
        word(bytes, offset) == data.len(),
        word(bytes, offset + 4) == kind,
        bytes.subrange(offset + 8, offset + 8 + data.len()) == data,
{
    four_bytes(data.len() as int);
    four_bytes(kind as int);
    let chunk = bytes.subrange(offset, offset + 8 + data.len());
    assert(chunk.subrange(0, 4) =~= word_bytes(data.len() as int));
    assert(chunk.subrange(4, 8) =~= word_bytes(kind as int));
    assert(chunk.subrange(8, 8 + data.len() as int) =~= data);
    assert(bytes.subrange(offset, offset + 4) =~= chunk.subrange(0, 4));
    assert(bytes.subrange(offset + 4, offset + 8) =~= chunk.subrange(4, 8));
    assert(bytes.subrange(offset + 8, offset + 8 + data.len()) =~= chunk.subrange(
        8,
        8 + data.len() as int,
    ));
    word_round_trip(bytes, offset, data.len() as int);
    word_round_trip(bytes, offset + 4, kind as int);
}

/// The header of a container is read back.
proof fn header_round_trip(body: Seq<u8>)
    requires
        12 + body.len() <= u32::MAX,
    ensures
        ({
            let bytes = word_bytes(GLB_MAGIC as int) + word_bytes(2) + word_bytes(
                12 + body.len() as int,
            ) + body;
            &&& bytes.len() == 12 + body.len()
            &&& word(bytes, 0) == GLB_MAGIC
            &&& word(bytes, 4) == 2
            &&& word(bytes, 8) == bytes.len()
            &&& bytes.skip(12) == body
        }),
{
    four_bytes(GLB_MAGIC as int);
    four_bytes(2);
    four_bytes(12 + body.len() as int);
    let bytes = word_bytes(GLB_MAGIC as int) + word_bytes(2) + word_bytes(12 + body.len() as int)
        + body;
    assert(bytes.subrange(0, 4) =~= word_bytes(GLB_MAGIC as int));
    assert(bytes.subrange(4, 8) =~= word_bytes(2));
    assert(bytes.subrange(8, 12) =~= word_bytes(12 + body.len() as int));
    assert(bytes.skip(12) =~= body);
    word_round_trip(bytes, 0, GLB_MAGIC as int);
    word_round_trip(bytes, 4, 2);
    word_round_trip(bytes, 8, 12 + body.len() as int);
}

/// Every container is read back as the chunks that it was made of.
pub proof fn containers_read_back(json: Seq<u8>, binary: Option<Seq<u8>>)
    requires
        glb_bytes(json, binary).len() <= u32::MAX,
    ensures
        glb_contents(glb_bytes(json, binary)) == Ok::<(Seq<u8>, Option<Seq<u8>>), GlbError>(
            (json, binary),
        ),
{
    let bytes = glb_bytes(json, binary);
    let body = body_bytes(json, binary);
    four_bytes(GLB_MAGIC as int);
    four_bytes(2);
    four_bytes(12 + body.len() as int);
    four_bytes(json.len() as int);
    four_bytes(GLB_JSON_CHUNK as int);
    header_round_trip(body);
    let next = 20 + json.len() as int;
    let first = chunk_bytes(GLB_JSON_CHUNK, json);
    assert(bytes.subrange(12, next) =~= first) by {
        assert(bytes.subrange(12, next) =~= bytes.skip(12).take(next - 12));
        assert(body.take(next - 12) =~= first);
    }
    chunk_round_trip(bytes, 12, GLB_JSON_CHUNK, json);
    match binary {
        Some(data) => {
            four_bytes(data.len() as int);
            four_bytes(GLB_BIN_CHUNK as int);
            let end = next + 8 + data.len() as int;
            let second = chunk_bytes(GLB_BIN_CHUNK, data);
            assert(bytes.subrange(next, end) =~= second) by {
                assert(bytes.subrange(next, end) =~= bytes.skip(12).subrange(next - 12, end - 12));
                assert(body.subrange(next - 12, end - 12) =~= second);
            }
            chunk_round_trip(bytes, next, GLB_BIN_CHUNK, data);
            assert(chunks_from(bytes, end, Some(json), binary)
                == Ok::<(Seq<u8>, Option<Seq<u8>>), GlbError>((json, binary)));
            assert(chunks_from(bytes, next, Some(json), None) == chunks_from(
                bytes,
                end,
                Some(json),
                binary,
            ));
        },
        None => {},
    }
    assert(chunks_from(bytes, 12, None, None) == chunks_from(bytes, next, Some(json), None));
}

/// A container of two chunks.
pub open spec fn two_chunks(
    first: u32,
    data: Seq<u8>,
    second: u32,
    further: Seq<u8>,
) -> Seq<u8> {
    let body = chunk_bytes(first, data) + chunk_bytes(second, further);
    word_bytes(GLB_MAGIC as int) + word_bytes(2) + word_bytes(12 + body.len() as int) + body
}

/// Chunks are told by their kinds, in whichever order they come: JSON is required and may
/// be there once, binary data may be there once, and any other kind is refused by its
/// number.
pub proof fn chunks_are_told_by_their_kinds(
    first: u32,
    data: Seq<u8>,
    second: u32,
    further: Seq<u8>,
)
    requires
        two_chunks(first, data, second, further).len() <= u32::MAX,
    ensures
        ({
            let json = 0x4E4F_534Au32;
            let bin = 0x004E_4942u32;
            let contents = glb_contents(two_chunks(first, data, second, further));
            &&& first == json && second == bin ==> contents == Ok::<
                (Seq<u8>, Option<Seq<u8>>),
                GlbError,
            >((data, Some(further)))
            &&& first == bin && second == json ==> contents == Ok::<
                (Seq<u8>, Option<Seq<u8>>),
                GlbError,
            >((further, Some(data)))
            &&& first == json && second == json ==> contents == Err::<
                (Seq<u8>, Option<Seq<u8>>),
                GlbError,
            >(GlbError::DuplicateJson)
            &&& first == bin && second == bin ==> contents == Err::<
                (Seq<u8>, Option<Seq<u8>>),
                GlbError,
            >(GlbError::DuplicateBinary)
            &&& first != json && first != bin ==> contents == Err::<
                (Seq<u8>, Option<Seq<u8>>),
                GlbError,
            >(GlbError::UnknownChunk(first))
            &&& (first == json || first == bin) && second != json && second != bin ==> contents
                == Err::<(Seq<u8>, Option<Seq<u8>>), GlbError>(GlbError::UnknownChunk(second))
        }),
{
    let bytes = two_chunks(first, data, second, further);
    let one = chunk_bytes(first, data);
    let two = chunk_bytes(second, further);
    let body = one + two;
    four_bytes(GLB_MAGIC as int);
    four_bytes(2);
    four_bytes(12 + body.len() as int);
    four_bytes(data.len() as int);
    four_bytes(first as int);
    four_bytes(further.len() as int);
    four_bytes(second as int);
    header_round_trip(body);
    let next = 20 + data.len() as int;
    let end = next + 8 + further.len() as int;
    assert(bytes.subrange(12, next) =~= one) by {
        assert(bytes.subrange(12, next) =~= bytes.skip(12).take(next - 12));
        assert(body.take(next - 12) =~= one);
    }
    assert(bytes.subrange(next, end) =~= two) by {
        assert(bytes.subrange(next, end) =~= bytes.skip(12).subrange(next - 12, end - 12));
        assert(body.subrange(next - 12, end - 12) =~= two);
    }
    chunk_round_trip(bytes, 12, first, data);
    chunk_round_trip(bytes, next, second, further);
    assert(bytes.len() == end);
    let held = if first == GLB_JSON_CHUNK {
        (Some(data), None::<Seq<u8>>)
    } else {
        (None::<Seq<u8>>, Some(data))
    };
    if first == GLB_JSON_CHUNK || first == GLB_BIN_CHUNK {
        assert(glb_contents(bytes) == chunks_from(bytes, next, held.0, held.1));
    }
    assert(chunks_from(bytes, end, Some(data), Some(further)) == Ok::<
        (Seq<u8>, Option<Seq<u8>>),
        GlbError,
    >((data, Some(further))));
    assert(chunks_from(bytes, end, Some(further), Some(data)) == Ok::<
        (Seq<u8>, Option<Seq<u8>>),
        GlbError,
    >((further, Some(data))));
}

/// A container with more or fewer bytes than it declares is refused, and so is anything
/// that does not start as a container does.
pub proof fn headers_are_checked(bytes: Seq<u8>, json: Seq<u8>, binary: Option<Seq<u8>>, rest: Seq<u8>)
    requires
        glb_bytes(json, binary).len() <= u32::MAX,
    ensures
        bytes.len() < 12 ==> glb_contents(bytes) == Err::<(Seq<u8>, Option<Seq<u8>>), GlbError>(
            GlbError::TooShort,
        ),
        bytes.len() >= 12 && bytes.take(4) != seq![0x67u8, 0x6c, 0x54, 0x46] ==> glb_contents(bytes)
            == Err::<(Seq<u8>, Option<Seq<u8>>), GlbError>(GlbError::BadMagic),
        rest.len() > 0 ==> glb_contents(glb_bytes(json, binary) + rest) == Err::<
            (Seq<u8>, Option<Seq<u8>>),
            GlbError,
        >(GlbError::LengthMismatch),
{
    if bytes.len() >= 12 && word(bytes, 0) == GLB_MAGIC {
        assert(bytes.take(4) =~= seq![0x67u8, 0x6c, 0x54, 0x46]) by {
            assert(bytes[0] + bytes[1] * 0x100 + bytes[2] * 0x1_0000 + bytes[3] * 0x100_0000
                == 0x4654_6C67);
        }
    }
    let whole = glb_bytes(json, binary);
    let longer = whole + rest;
    let body = body_bytes(json, binary);
    four_bytes(GLB_MAGIC as int);
    four_bytes(2);
    four_bytes(12 + body.len() as int);
    header_round_trip(body);
    assert(forall|i: int| 0 <= i < 12 ==> #[trigger] longer[i] == whole[i]);
    assert(word(longer, 0) == word(whole, 0));
    assert(word(longer, 4) == word(whole, 4));
    assert(word(longer, 8) == word(whole, 8));
}

/// A container without JSON is refused.
pub proof fn containers_need_json(data: Seq<u8>)
    requires
        20 + data.len() <= u32::MAX,
    ensures
        ({
            let body = chunk_bytes(0x004E_4942, data);
            let bytes = word_bytes(GLB_MAGIC as int) + word_bytes(2) + word_bytes(
                12 + body.len() as int,
            ) + body;
            glb_contents(bytes) == Err::<(Seq<u8>, Option<Seq<u8>>), GlbError>(
                GlbError::MissingJson,
            )
        }),
{
    let body = chunk_bytes(GLB_BIN_CHUNK, data);
    let bytes = word_bytes(GLB_MAGIC as int) + word_bytes(2) + word_bytes(12 + body.len() as int)
        + body;
    four_bytes(GLB_MAGIC as int);
    four_bytes(2);
    four_bytes(12 + body.len() as int);
    four_bytes(data.len() as int);
    four_bytes(GLB_BIN_CHUNK as int);
    header_round_trip(body);
    let end = 20 + data.len() as int;
    assert(bytes.subrange(12, end) =~= body) by {
        assert(bytes.subrange(12, end) =~= bytes.skip(12));
    }
    chunk_round_trip(bytes, 12, GLB_BIN_CHUNK, data);
    assert(bytes.len() == end);
    assert(chunks_from(bytes, end, None, Some(data)) == Err::<(Seq<u8>, Option<Seq<u8>>), GlbError>(
        GlbError::MissingJson,
    ));
}

} // verus!
