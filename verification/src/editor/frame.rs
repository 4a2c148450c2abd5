//! One picture as a script for the page.
//!
//! The picture is a fixed row of 32-bit floats, here as their bit patterns. It
//! travels as Base64 of little-endian bytes, so the page reads back exactly the
//! numbers that were published.
use crate::editor::slots::SCOPE_SLOTS;
use vstd::prelude::*;

verus! {

/// How many bytes a picture has.
pub const SCOPE_BYTES: usize = 3_584;

/// How many characters a picture has in Base64.
pub const SCOPE_BASE64_BYTES: usize = 4_780;

/// The character for six bits in the standard alphabet.
pub open spec fn base64_symbol(bits: int) -> u8 {
    if bits < 26 {
        (0x41 + bits) as u8
    } else if bits < 52 {
        (0x61 + bits - 26) as u8
    } else if bits < 62 {
        (0x30 + bits - 52) as u8
    } else if bits == 62 {
        0x2b
    } else {
        0x2f
    }
}

/// The byte at a place, or zero behind the last one.
pub open spec fn byte_or_zero(bytes: Seq<u8>, place: int) -> int {
    if place < bytes.len() {
        bytes[place] as int
    } else {
        0
    }
}

/// Three bytes as one number, the first byte in the highest place.
pub open spec fn base64_group(bytes: Seq<u8>, group: int) -> int {
    byte_or_zero(bytes, 3 * group) * 0x1_0000 + byte_or_zero(bytes, 3 * group + 1) * 0x100
        + byte_or_zero(bytes, 3 * group + 2)
}

/// One of the four sixes of bits of a group, the highest first.
pub open spec fn base64_six(group: int, place: int) -> int {
    if place == 0 {
        group / 0x4_0000 % 64
    } else if place == 1 {
        group / 0x1000 % 64
    } else if place == 2 {
        group / 64 % 64
    } else {
        group % 64
    }
}

/// How many characters so many bytes take.
pub open spec fn base64_length(count: int) -> int {
    (count + 2) / 3 * 4
}

/// Standard Base64 with padding: four characters for three bytes, `=` for the
/// characters that no byte reaches.
pub open spec fn base64_text(bytes: Seq<u8>) -> Seq<u8> {
    Seq::new(
        base64_length(bytes.len() as int) as nat,
        |i: int|
            if 3 * (i / 4) + i % 4 > bytes.len() {
                0x3d
            } else {
                base64_symbol(base64_six(base64_group(bytes, i / 4), i % 4))
            },
    )
}

/// Calls `base64::encode_config_slice` with the crate's `STANDARD`
/// configuration. It writes the standard Base64 of the input, padded, to the
/// front of the output, leaves the rest of the output as it was, and returns
/// how much it wrote. It panics where the output is too short, so enough room
/// is required.
#[verifier::external_body]
fn encode_slice(input: &[u8], output: &mut [u8]) -> (length: usize)
    requires
        base64_length(input@.len() as int) <= old(output)@.len(),
    ensures
        length == base64_length(input@.len() as int),
        final(output)@ == base64_text(input@) + old(output)@.skip(length as int),
{
    base64::encode_config_slice(input, base64::STANDARD, output)
}

/// The bytes of the words, each with its smallest place first.
pub open spec fn little_endian(words: Seq<u32>) -> Seq<u8> {
    Seq::new(
        4 * words.len(),
        |i: int|
            if i % 4 == 0 {
                (words[i / 4] as int % 0x100) as u8
            } else if i % 4 == 1 {
                (words[i / 4] as int / 0x100 % 0x100) as u8
            } else if i % 4 == 2 {
                (words[i / 4] as int / 0x1_0000 % 0x100) as u8
            } else {
                (words[i / 4] as int / 0x100_0000 % 0x100) as u8
            },
    )
}

/// The bytes of the words, each with its smallest place first.
fn word_bytes(words: &[u32]) -> (bytes: Vec<u8>)
    ensures
        bytes@ == little_endian(words@),
{
    let mut bytes: Vec<u8> = Vec::new();
    let mut index: usize = 0;
    while index < words.len()
        invariant
            index <= words@.len(),
            bytes@.len() == 4 * index,
            forall|i: int|
                0 <= i < bytes@.len() ==> #[trigger] bytes@[i] == little_endian(words@)[i],
        decreases words@.len() - index,
    {
        let word: u32 = words[index];
        bytes.push((word % 0x100) as u8);
        bytes.push((word / 0x100 % 0x100) as u8);
        bytes.push((word / 0x1_0000 % 0x100) as u8);
        bytes.push((word / 0x100_0000 % 0x100) as u8);
        assert(forall|k: int| 0 <= k < 4 ==> (4 * index + k) / 4 == index && #[trigger] ((4 * index
            + k) % 4) == k);
        proof {
            let expected = little_endian(words@);
            let base = 4 * index as int;
            assert(base % 4 == 0 && base / 4 == index);
            assert((base + 1) % 4 == 1 && (base + 1) / 4 == index);
            assert((base + 2) % 4 == 2 && (base + 2) / 4 == index);
            assert((base + 3) % 4 == 3 && (base + 3) / 4 == index);
            assert(bytes@[base] == expected[base]);
            assert(bytes@[base + 1] == expected[base + 1]);
            assert(bytes@[base + 2] == expected[base + 2]);
            assert(bytes@[base + 3] == expected[base + 3]);
        }
        index = index + 1;
    }
    assert(bytes@ =~= little_endian(words@));
    bytes
}

/// The bytes as characters of the same codes.
pub open spec fn ascii_text(bytes: Seq<u8>) -> Seq<char> {
    Seq::new(bytes.len(), |i: int| bytes[i] as char)
}

/// The script that hands the page one picture.
pub open spec fn frame_script(picture: Seq<u32>) -> Seq<char> {
    "window.__neta_frame&&window.__neta_frame(\""@ + ascii_text(base64_text(little_endian(picture)))
        + "\");"@
}

/// Serializes one exact frame without decimal formatting or JSON churn. There
/// is none while the row is shorter than a picture; what stands behind the
/// picture is not sent.
///
/// The base64 text is safe in a JavaScript string literal. WebKit decodes it
/// into a preallocated byte buffer and reads little-endian floats directly.
pub fn frame(scope: &[u32]) -> (script: Option<String>)
    ensures
        match script {
            Some(script) => scope@.len() >= SCOPE_SLOTS && script@ == frame_script(
                scope@.take(SCOPE_SLOTS as int),
            ),
            None => scope@.len() < SCOPE_SLOTS,
        },
{
    if scope.len() < SCOPE_SLOTS {
        return None;
    }
    let picture = vstd::slice::slice_subrange(scope, 0, SCOPE_SLOTS);
    assert(picture@ =~= scope@.take(SCOPE_SLOTS as int));
    let bytes = word_bytes(picture);
    let mut encoded: Vec<u8> = crate::scope::history::filled(0u8, SCOPE_BASE64_BYTES);
    let length: usize = encode_slice(bytes.as_slice(), encoded.as_mut_slice());
    let ghost text = base64_text(bytes@);
    assert(encoded@ =~= text);
    let mut script = String::from_str("window.__neta_frame&&window.__neta_frame(\"");
    let ghost opening = script@;
    let mut index: usize = 0;
    assert(script@ =~= opening + ascii_text(text.take(0)));
    while index < length
        invariant
            index <= length,
            length == encoded@.len(),
            encoded@ == text,
            script@ == opening + ascii_text(text.take(index as int)),
        decreases length - index,
    {
        script.push(encoded[index] as char);
        index = index + 1;
        assert(script@ =~= opening + ascii_text(text.take(index as int)));
    }
    assert(text.take(text.len() as int) =~= text);
    script.append("\");");
    Some(script)
}

/// The six bits that a character of the standard alphabet stands for; padding
/// stands for none.
pub open spec fn base64_bits(symbol: u8) -> int {
    if 0x41 <= symbol <= 0x5a {
        symbol - 0x41
    } else if 0x61 <= symbol <= 0x7a {
        symbol - 0x61 + 26
    } else if 0x30 <= symbol <= 0x39 {
        symbol - 0x30 + 52
    } else if symbol == 0x2b {
        62
    } else if symbol == 0x2f {
        63
    } else {
        0
    }
}

/// The number that four characters write.
pub open spec fn decoded_group(text: Seq<u8>, group: int) -> int {
    base64_bits(text[4 * group]) * 0x4_0000 + base64_bits(text[4 * group + 1]) * 0x1000
        + base64_bits(text[4 * group + 2]) * 64 + base64_bits(text[4 * group + 3])
}

/// The byte at a place of what Base64 text stands for.
pub open spec fn decoded_byte(text: Seq<u8>, place: int) -> int {
    let group = decoded_group(text, place / 3);
    if place % 3 == 0 {
        group / 0x1_0000 % 0x100
    } else if place % 3 == 1 {
        group / 0x100 % 0x100
    } else {
        group % 0x100
    }
}

/// The digits of a number of four digits to the base of 64.
proof fn four_digits(a: int, b: int, c: int, d: int)
    requires
        0 <= a < 64,
        0 <= b < 64,
        0 <= c < 64,
        0 <= d < 64,
    ensures
        ({
            let number = a * 0x4_0000 + b * 0x1000 + c * 64 + d;
            &&& base64_six(number, 0) == a
            &&& base64_six(number, 1) == b
            &&& base64_six(number, 2) == c
            &&& base64_six(number, 3) == d
        }),
{
    let number = a * 0x4_0000 + b * 0x1000 + c * 64 + d;
    assert(number / 0x4_0000 == a);
    assert(number / 0x1000 == a * 64 + b);
    assert(number / 64 == (a * 64 + b) * 64 + c);
    assert((a * 64 + b) % 64 == b);
    assert(((a * 64 + b) * 64 + c) % 64 == c);
}

/// The four sixes of a group make up the group, and its three bytes are read
/// back from it.
proof fn group_arithmetic(first: int, second: int, third: int)
    requires
        0 <= first < 256,
        0 <= second < 256,
        0 <= third < 256,
    ensures
        ({
            let group = first * 0x1_0000 + second * 0x100 + third;
            &&& 0 <= base64_six(group, 0) < 64
            &&& 0 <= base64_six(group, 1) < 64
            &&& 0 <= base64_six(group, 2) < 64
            &&& 0 <= base64_six(group, 3) < 64
            &&& base64_six(group, 0) * 0x4_0000 + base64_six(group, 1) * 0x1000 + base64_six(
                group,
                2,
            ) * 64 + base64_six(group, 3) == group
            &&& group / 0x1_0000 % 0x100 == first
            &&& group / 0x100 % 0x100 == second
            &&& group % 0x100 == third
            &&& third == 0 ==> base64_six(group, 3) == 0
            &&& second == 0 && third == 0 ==> base64_six(group, 2) == 0
        }),
{
    let group = first * 0x1_0000 + second * 0x100 + third;
    four_digits(
        first / 4,
        first % 4 * 16 + second / 16,
        second % 16 * 4 + third / 64,
        third % 64,
    );
    assert(group == first / 4 * 0x4_0000 + (first % 4 * 16 + second / 16) * 0x1000 + (second % 16
        * 4 + third / 64) * 64 + third % 64);
    assert(group / 0x1_0000 == first);
    assert(group / 0x100 == first * 0x100 + second);
}

/// The four characters of a group stand for its sixes.
proof fn group_symbols(bytes: Seq<u8>, number: int)
    requires
        0 <= number,
        3 * number < bytes.len(),
    ensures
        decoded_group(base64_text(bytes), number) == base64_group(bytes, number),
{
    let text = base64_text(bytes);
    let group = base64_group(bytes, number);
    let start = 4 * number;
    group_arithmetic(
        byte_or_zero(bytes, 3 * number),
        byte_or_zero(bytes, 3 * number + 1),
        byte_or_zero(bytes, 3 * number + 2),
    );
    symbols_read_back(base64_six(group, 0));
    symbols_read_back(base64_six(group, 1));
    symbols_read_back(base64_six(group, 2));
    symbols_read_back(base64_six(group, 3));
    assert(start + 3 < text.len());
    assert(start / 4 == number && start % 4 == 0);
    assert((start + 1) / 4 == number && (start + 1) % 4 == 1);
    assert((start + 2) / 4 == number && (start + 2) % 4 == 2);
    assert((start + 3) / 4 == number && (start + 3) % 4 == 3);
    assert(base64_bits(text[start]) == base64_six(group, 0));
    assert(base64_bits(text[start + 1]) == base64_six(group, 1));
    assert(base64_bits(text[start + 2]) == base64_six(group, 2));
    assert(base64_bits(text[start + 3]) == base64_six(group, 3));
}

/// Every byte is read back from the Base64 of its bytes.
pub proof fn base64_reads_back(bytes: Seq<u8>, place: int)
    requires
        0 <= place < bytes.len(),
    ensures
        decoded_byte(base64_text(bytes), place) == bytes[place],
{
    let number = place / 3;
    group_symbols(bytes, number);
    group_arithmetic(
        byte_or_zero(bytes, 3 * number),
        byte_or_zero(bytes, 3 * number + 1),
        byte_or_zero(bytes, 3 * number + 2),
    );
    assert(place == 3 * number + place % 3);
}

/// Six bits are read back from their character.
proof fn symbols_read_back(bits: int)
    requires
        0 <= bits < 64,
    ensures
        base64_bits(base64_symbol(bits)) == bits,
        base64_symbol(bits) != 0x3d,
{
}

/// The four bytes of a word make up the word.
proof fn word_arithmetic(word: int)
    requires
        0 <= word <= u32::MAX,
    ensures
        word == word % 0x100 + (word / 0x100 % 0x100) * 0x100 + (word / 0x1_0000 % 0x100)
            * 0x1_0000 + (word / 0x100_0000 % 0x100) * 0x100_0000,
        0 <= word % 0x100 < 256,
        0 <= word / 0x100 % 0x100 < 256,
        0 <= word / 0x1_0000 % 0x100 < 256,
        0 <= word / 0x100_0000 % 0x100 < 256,
{
}

/// Where the bytes of a word stand.
proof fn bytes_of_word(words: Seq<u32>, slot: int)
    requires
        0 <= slot < words.len(),
    ensures
        little_endian(words)[4 * slot] == words[slot] as int % 0x100,
        little_endian(words)[4 * slot + 1] == words[slot] as int / 0x100 % 0x100,
        little_endian(words)[4 * slot + 2] == words[slot] as int / 0x1_0000 % 0x100,
        little_endian(words)[4 * slot + 3] == words[slot] as int / 0x100_0000 % 0x100,
{
    word_arithmetic(words[slot] as int);
    let place = 4 * slot;
    assert(place / 4 == slot && place % 4 == 0);
    assert((place + 1) / 4 == slot && (place + 1) % 4 == 1);
    assert((place + 2) / 4 == slot && (place + 2) % 4 == 2);
    assert((place + 3) / 4 == slot && (place + 3) % 4 == 3);
}

/// The number that the page reads at a slot: the four bytes at its place, the
/// smallest first.
pub open spec fn decoded_slot(text: Seq<u8>, slot: int) -> int {
    decoded_byte(text, 4 * slot) + decoded_byte(text, 4 * slot + 1) * 0x100 + decoded_byte(
        text,
        4 * slot + 2,
    ) * 0x1_0000 + decoded_byte(text, 4 * slot + 3) * 0x100_0000
}

/// The page reads back every slot of the picture that was published, bit for
/// bit.
pub proof fn pictures_read_back(picture: Seq<u32>, slot: int)
    requires
        0 <= slot < picture.len(),
    ensures
        decoded_slot(base64_text(little_endian(picture)), slot) == picture[slot],
{
    let bytes = little_endian(picture);
    base64_reads_back(bytes, 4 * slot);
    base64_reads_back(bytes, 4 * slot + 1);
    base64_reads_back(bytes, 4 * slot + 2);
    base64_reads_back(bytes, 4 * slot + 3);
    bytes_of_word(picture, slot);
    word_arithmetic(picture[slot] as int);
}

/// Base64 text needs no escapes: as a string literal it is itself between two
/// quotes.
pub proof fn payloads_need_no_escapes(bytes: Seq<u8>)
    ensures
        crate::model::quoted(ascii_text(base64_text(bytes))) == seq!['"'] + ascii_text(
            base64_text(bytes),
        ) + seq!['"'],
{
    let text = ascii_text(base64_text(bytes));
    assert forall|i: int| 0 <= i < text.len() implies crate::model::escape(#[trigger] text[i])
        == seq![text[i]] by {
        let symbol = base64_text(bytes)[i];
        assert(text[i] == symbol as char);
        let group = base64_group(bytes, i / 4);
        assert(0 <= base64_six(group, i % 4) < 64);
        assert(0x2b <= symbol <= 0x7a && symbol != 0x5c);
    }
    plain_text_stays(text);
}

proof fn plain_text_stays(text: Seq<char>)
    requires
        forall|i: int|
            0 <= i < text.len() ==> crate::model::escape(#[trigger] text[i]) == seq![text[i]],
    ensures
        crate::model::escaped(text) == text,
    decreases text.len(),
{
    if text.len() > 0 {
        let shorter = text.drop_last();
        assert forall|i: int| 0 <= i < shorter.len() implies crate::model::escape(
            #[trigger] shorter[i],
        ) == seq![shorter[i]] by {
            assert(shorter[i] == text[i]);
        }
        plain_text_stays(shorter);
        assert(crate::model::escape(text[text.len() - 1]) == seq![text.last()]);
        assert(shorter + seq![text.last()] =~= text);
    }
}

} // verus!
