//! The `key=value;` fields of a state block, as the audio thread reads them.
use crate::text::{decimal, digits_value};
use vstd::prelude::*;

verus! {

/// Whether the byte is a space, tab, line feed, form feed or carriage return.
pub open spec fn is_ascii_white_space(byte: u8) -> bool {
    byte == 0x20 || byte == 0x09 || byte == 0x0a || byte == 0x0c || byte == 0x0d
}

/// Whether the byte may stand between two fields.
pub open spec fn is_separator(byte: u8) -> bool {
    byte == 0x3b || is_ascii_white_space(byte)
}

/// The first place at or after `from` that holds no separator.
pub open spec fn after_separators(block: Seq<u8>, from: int) -> int
    decreases block.len() - from,
{
    if 0 <= from < block.len() && is_separator(block[from]) {
        after_separators(block, from + 1)
    } else {
        from
    }
}

/// The first place at or after `from` that holds the byte, or the end.
pub open spec fn place_of(bytes: Seq<u8>, byte: u8, from: int) -> int
    decreases bytes.len() - from,
{
    if 0 <= from < bytes.len() && bytes[from] != byte {
        place_of(bytes, byte, from + 1)
    } else {
        from
    }
}

/// What lies in front of that place is separators.
pub proof fn after_separators_bounds(block: Seq<u8>, from: int)
    requires
        0 <= from <= block.len(),
    ensures
        from <= after_separators(block, from) <= block.len(),
        after_separators(block, from) < block.len() ==> !is_separator(
            block[after_separators(block, from)],
        ),
        forall|i: int|
            from <= i < after_separators(block, from) ==> is_separator(#[trigger] block[i]),
    decreases block.len() - from,
{
    if from < block.len() && is_separator(block[from]) {
        after_separators_bounds(block, from + 1);
    }
}

/// What lies in front of that place is other bytes.
pub proof fn place_of_bounds(bytes: Seq<u8>, byte: u8, from: int)
    requires
        0 <= from <= bytes.len(),
    ensures
        from <= place_of(bytes, byte, from) <= bytes.len(),
        place_of(bytes, byte, from) < bytes.len() ==> bytes[place_of(bytes, byte, from)] == byte,
        forall|i: int| from <= i < place_of(bytes, byte, from) ==> bytes[i] != byte,
    decreases bytes.len() - from,
{
    if from < bytes.len() && bytes[from] != byte {
        place_of_bounds(bytes, byte, from + 1);
    }
}

/// The fields of the block from `from` on, each a key and a value.
///
/// A field reaches to the next `;`. Its key stands in front of its first `=`.
/// The first field without a `=` ends the list.
pub open spec fn fields(block: Seq<u8>, from: int) -> Seq<(Seq<u8>, Seq<u8>)>
    decreases block.len() - from,
    when 0 <= from <= block.len()
    via fields_shrink
{
    let start = after_separators(block, from);
    if start >= block.len() {
        Seq::empty()
    } else {
        let end = place_of(block, 0x3b, start);
        let field = block.subrange(start, end);
        let equals = place_of(field, 0x3d, 0);
        if equals >= field.len() {
            Seq::empty()
        } else {
            seq![(field.take(equals), field.skip(equals + 1))] + fields(block, end)
        }
    }
}

#[via_fn]
proof fn fields_shrink(block: Seq<u8>, from: int) {
    after_separators_bounds(block, from);
    let start = after_separators(block, from);
    if start < block.len() {
        place_of_bounds(block, 0x3b, start);
    }
}

/// Where the field that is next from `from` on ends: at the first `;` behind its
/// start, or at the end of the block.
pub open spec fn field_end(block: Seq<u8>, from: int) -> int {
    place_of(block, 0x3b, after_separators(block, from))
}

/// Takes the next field off the block and moves the cursor to its end.
pub fn next_field<'a>(block: &'a [u8], cursor: &mut usize) -> (result: Option<
    (&'a [u8], &'a [u8]),
>)
    requires
        *old(cursor) <= block@.len(),
    ensures
        *old(cursor) <= *final(cursor) <= block@.len(),
        *final(cursor) == field_end(block@, *old(cursor) as int),
        match result {
            Some((key, value)) => {
                &&& *old(cursor) < *final(cursor)
                &&& fields(block@, *old(cursor) as int) == seq![(key@, value@)] + fields(
                    block@,
                    *final(cursor) as int,
                )
            },
            None => fields(block@, *old(cursor) as int) == Seq::<(Seq<u8>, Seq<u8>)>::empty(),
        },
{
    let from: usize = *cursor;
    let mut start: usize = from;
    while start < block.len() && (block[start] == 0x3b || block[start] == 0x20 || block[start]
        == 0x09 || block[start] == 0x0a || block[start] == 0x0c || block[start] == 0x0d)
        invariant
            from <= start <= block@.len(),
            after_separators(block@, from as int) == after_separators(block@, start as int),
        decreases block@.len() - start,
    {
        start = start + 1;
    }
    if start == block.len() {
        *cursor = start;
        return None;
    }
    let mut end: usize = start;
    while end < block.len() && block[end] != 0x3b
        invariant
            start <= end <= block@.len(),
            place_of(block@, 0x3b, start as int) == place_of(block@, 0x3b, end as int),
        decreases block@.len() - end,
    {
        end = end + 1;
    }
    *cursor = end;
    let field = vstd::slice::slice_subrange(block, start, end);
    let mut equals: usize = 0;
    while equals < field.len() && field[equals] != 0x3d
        invariant
            equals <= field@.len(),
            place_of(field@, 0x3d, 0) == place_of(field@, 0x3d, equals as int),
        decreases field@.len() - equals,
    {
        equals = equals + 1;
    }
    if equals == field.len() {
        return None;
    }
    let key = vstd::slice::slice_subrange(field, 0, equals);
    let value = vstd::slice::slice_subrange(field, equals + 1, field.len());
    assert(key@ =~= field@.take(equals as int));
    assert(value@ =~= field@.skip(equals + 1));
    Some((key, value))
}

/// The bytes as characters of the same codes.
pub open spec fn latin(bytes: Seq<u8>) -> Seq<char> {
    Seq::new(bytes.len(), |i: int| bytes[i] as char)
}

/// The number that the bytes write: decimal digits, behind an optional `-`, of
/// a magnitude that an `i32` holds.
pub open spec fn number_value(value: Seq<u8>) -> Option<int> {
    if value.len() > 0 && value[0] == 0x2d {
        match digits_value(latin(value.skip(1)), i32::MAX as nat) {
            Some(number) => Some(-(number as int)),
            None => None,
        }
    } else {
        match digits_value(latin(value), i32::MAX as nat) {
            Some(number) => Some(number as int),
            None => None,
        }
    }
}

/// Reads a row of decimal digits that an `i32` holds.
fn parse_magnitude(digits: &[u8]) -> (result: Option<i32>)
    ensures
        result.is_some() == digits_value(latin(digits@), i32::MAX as nat).is_some(),
        result.is_some() ==> result.unwrap() == digits_value(
            latin(digits@),
            i32::MAX as nat,
        ).unwrap(),
{
    if digits.len() == 0 {
        return None;
    }
    let ghost text = latin(digits@);
    let mut number: i64 = 0;
    let mut index: usize = 0;
    while index < digits.len()
        invariant
            0 <= index <= digits.len(),
            digits.len() > 0,
            text == latin(digits@),
            0 <= number <= i32::MAX,
            number == decimal(text.take(index as int)),
            forall|i: int| 0 <= i < index ==> crate::text::is_digit(#[trigger] text[i]),
        decreases digits.len() - index,
    {
        let digit: u8 = digits[index];
        assert(text[index as int] == digit as char);
        if digit < 0x30 || digit > 0x39 {
            assert(!crate::text::is_digit(text[index as int]));
            return None;
        }
        assert(text.take(index + 1).drop_last() =~= text.take(index as int));
        number = number * 10 + (digit - 0x30) as i64;
        index = index + 1;
        if number > i32::MAX as i64 {
            proof {
                if crate::text::all_digits(text) {
                    crate::text::decimal_grows(text, index as int);
                }
            }
            return None;
        }
    }
    assert(text.take(text.len() as int) =~= text);
    Some(number as i32)
}

/// Reads decimal digits behind an optional `-`.
pub fn parse_i32(value: &[u8]) -> (result: Option<i32>)
    ensures
        result.is_some() == number_value(value@).is_some(),
        result.is_some() ==> result.unwrap() == number_value(value@).unwrap(),
{
    if value.len() > 0 && value[0] == 0x2d {
        let digits = vstd::slice::slice_subrange(value, 1, value.len());
        assert(digits@ =~= value@.skip(1));
        match parse_magnitude(digits) {
            Some(number) => Some(-number),
            None => None,
        }
    } else {
        parse_magnitude(value)
    }
}

/// The number that the bytes write, where it lies in the range.
pub open spec fn ranged_value(value: Seq<u8>, minimum: int, maximum: int) -> Option<i8> {
    match number_value(value) {
        Some(number) => if minimum <= number <= maximum {
            Some(number as i8)
        } else {
            None
        },
        None => None,
    }
}

/// Reads a number between `minimum` and `maximum`.
pub fn valid_i8(value: &[u8], minimum: i8, maximum: i8) -> (result: Option<i8>)
    ensures
        result == ranged_value(value@, minimum as int, maximum as int),
{
    match parse_i32(value) {
        Some(number) => if minimum as i32 <= number && number <= maximum as i32 {
            Some(number as i8)
        } else {
            None
        },
        None => None,
    }
}

/// The truth value that the bytes name.
pub open spec fn flag_value(value: Seq<u8>) -> Option<bool> {
    if value == vstd::utf8::encode_utf8("0"@) || value == vstd::utf8::encode_utf8("false"@) {
        Some(false)
    } else if value == vstd::utf8::encode_utf8("1"@) || value == vstd::utf8::encode_utf8("true"@) {
        Some(true)
    } else {
        None
    }
}

/// Reads `0`, `false`, `1` or `true`.
pub fn parse_bool(value: &[u8]) -> (result: Option<bool>)
    ensures
        result == flag_value(value@),
{
    if crate::text::bytes_spell(value, "0") || crate::text::bytes_spell(value, "false") {
        Some(false)
    } else if crate::text::bytes_spell(value, "1") || crate::text::bytes_spell(value, "true") {
        Some(true)
    } else {
        None
    }
}

/// The version that the first `v` field names, or 1.
pub open spec fn version_of(listed: Seq<(Seq<u8>, Seq<u8>)>) -> u8
    decreases listed.len(),
{
    if listed.len() == 0 {
        1
    } else if listed[0].0 == vstd::utf8::encode_utf8("v"@) {
        match number_value(listed[0].1) {
            Some(number) => if 0 <= number <= 255 {
                number as u8
            } else {
                1
            },
            None => 1,
        }
    } else {
        version_of(listed.skip(1))
    }
}

/// The version of the state block: its first `v` field, or 1.
pub fn state_version(block: &[u8]) -> (version: u8)
    ensures
        version == version_of(fields(block@, 0)),
{
    let mut cursor: usize = 0;
    while cursor < block.len()
        invariant
            cursor <= block@.len(),
            version_of(fields(block@, 0)) == version_of(fields(block@, cursor as int)),
        decreases block@.len() - cursor,
    {
        let ghost listed = fields(block@, cursor as int);
        match next_field(block, &mut cursor) {
            Some((key, value)) => {
                if crate::text::bytes_spell(key, "v") {
                    return match parse_i32(value) {
                        Some(number) => if 0 <= number && number <= 255 {
                            number as u8
                        } else {
                            1
                        },
                        None => 1,
                    };
                }
                assert(listed.skip(1) =~= fields(block@, cursor as int));
            },
            None => {
                return 1;
            },
        }
    }
    1
}

/// A place behind separators stays where it is when the block in front of it goes.
proof fn after_separators_shifts(block: Seq<u8>, by: int, from: int)
    requires
        0 <= by,
        0 <= from,
        by + from <= block.len(),
    ensures
        after_separators(block, by + from) == by + after_separators(block.skip(by), from),
    decreases block.len() - from,
{
    if by + from < block.len() {
        assert(block.skip(by)[from] == block[by + from]);
        if is_separator(block[by + from]) {
            after_separators_shifts(block, by, from + 1);
        }
    }
}

/// A place of a byte stays where it is when the block in front of it goes.
proof fn place_of_shifts(bytes: Seq<u8>, byte: u8, by: int, from: int)
    requires
        0 <= by,
        0 <= from,
        by + from <= bytes.len(),
    ensures
        place_of(bytes, byte, by + from) == by + place_of(bytes.skip(by), byte, from),
    decreases bytes.len() - from,
{
    if by + from < bytes.len() {
        assert(bytes.skip(by)[from] == bytes[by + from]);
        if bytes[by + from] != byte {
            place_of_shifts(bytes, byte, by, from + 1);
        }
    }
}

/// Fields stay what they are when the block in front of them goes.
proof fn fields_shift(block: Seq<u8>, by: int, from: int)
    requires
        0 <= by,
        0 <= from,
        by + from <= block.len(),
    ensures
        fields(block, by + from) == fields(block.skip(by), from),
    decreases block.len() - from,
{
    let rest = block.skip(by);
    after_separators_shifts(block, by, from);
    after_separators_bounds(rest, from);
    let start = after_separators(rest, from);
    if start < rest.len() {
        place_of_shifts(block, 0x3b, by, start);
        place_of_bounds(rest, 0x3b, start);
        let end = place_of(rest, 0x3b, start);
        assert(rest[start] != 0x3b);
        assert(end > start) by {
            place_of_bounds(rest, 0x3b, start + 1);
        }
        assert(rest.subrange(start, end) =~= block.subrange(by + start, by + end));
        fields_shift(block, by, end);
    }
}

/// Separators are skipped.
proof fn after_separators_skips(block: Seq<u8>, from: int, to: int)
    requires
        0 <= from <= to <= block.len(),
        forall|i: int| from <= i < to ==> is_separator(#[trigger] block[i]),
        to < block.len() ==> !is_separator(block[to]),
    ensures
        after_separators(block, from) == to,
    decreases to - from,
{
    if from < to {
        assert(is_separator(block[from]));
        after_separators_skips(block, from + 1, to);
    }
}

/// A byte is found at its first place.
proof fn place_of_skips(bytes: Seq<u8>, byte: u8, from: int, to: int)
    requires
        0 <= from <= to <= bytes.len(),
        forall|i: int| from <= i < to ==> #[trigger] bytes[i] != byte,
        to < bytes.len() ==> bytes[to] == byte,
    ensures
        place_of(bytes, byte, from) == to,
    decreases to - from,
{
    if from < to {
        place_of_skips(bytes, byte, from + 1, to);
    }
}

/// The fields of a block are what is written in it: behind semicolons and white space, a
/// key, the first equals sign and the value up to the next semicolon are a field, and the
/// rest of the block goes on behind it.
pub proof fn fields_are_keys_and_values(
    front: Seq<u8>,
    key: Seq<u8>,
    value: Seq<u8>,
    rest: Seq<u8>,
)
    requires
        forall|i: int|
            0 <= i < front.len() ==> (#[trigger] front[i] == 0x3b || front[i] == 0x20 || front[i]
                == 0x09 || front[i] == 0x0a || front[i] == 0x0c || front[i] == 0x0d),
        forall|i: int| 0 <= i < key.len() ==> #[trigger] key[i] != 0x3b && key[i] != 0x3d,
        forall|i: int| 0 <= i < value.len() ==> #[trigger] value[i] != 0x3b,
        key.len() > 0 ==> !is_ascii_white_space(key[0]),
        rest.len() > 0 ==> rest[0] == 0x3b,
    ensures
        fields(front + key + seq![0x3du8] + value + rest, 0) == seq![(key, value)] + fields(
            rest,
            0,
        ),
        fields(front, 0) == Seq::<(Seq<u8>, Seq<u8>)>::empty(),
{
    let block = front + key + seq![0x3du8] + value + rest;
    let start = front.len() as int;
    let equals = key.len() as int;
    let end = start + equals + 1 + value.len();
    after_separators_skips(front, 0, start);
    assert forall|i: int| 0 <= i < start implies is_separator(#[trigger] block[i]) by {
        assert(block[i] == front[i]);
    }
    assert(block[start] == (if equals > 0 {
        key[0]
    } else {
        0x3d
    }));
    after_separators_skips(block, 0, start);
    assert forall|i: int| start <= i < end implies #[trigger] block[i] != 0x3b by {
        if i < start + equals {
            assert(block[i] == key[i - start]);
        } else if i == start + equals {
            assert(block[i] == 0x3d);
        } else {
            assert(block[i] == value[i - start - equals - 1]);
        }
    }
    if end < block.len() {
        assert(block[end] == rest[0]);
    }
    place_of_skips(block, 0x3b, start, end);
    let field = block.subrange(start, end);
    assert(field =~= key + seq![0x3du8] + value);
    assert forall|i: int| 0 <= i < equals implies #[trigger] field[i] != 0x3d by {
        assert(field[i] == key[i]);
    }
    place_of_skips(field, 0x3d, 0, equals);
    assert(field.take(equals) =~= key);
    assert(field.skip(equals + 1) =~= value);
    fields_shift(block, end, 0);
    assert(block.skip(end) =~= rest);
}

/// The first word without an equals sign ends the fields of a block.
pub proof fn a_word_without_a_value_ends_the_fields(front: Seq<u8>, word: Seq<u8>, rest: Seq<u8>)
    requires
        forall|i: int|
            0 <= i < front.len() ==> (#[trigger] front[i] == 0x3b || front[i] == 0x20 || front[i]
                == 0x09 || front[i] == 0x0a || front[i] == 0x0c || front[i] == 0x0d),
        word.len() > 0,
        forall|i: int| 0 <= i < word.len() ==> #[trigger] word[i] != 0x3b && word[i] != 0x3d,
        !is_ascii_white_space(word[0]),
        rest.len() > 0 ==> rest[0] == 0x3b,
    ensures
        fields(front + word + rest, 0) == Seq::<(Seq<u8>, Seq<u8>)>::empty(),
{
    let block = front + word + rest;
    let start = front.len() as int;
    let end = start + word.len();
    assert forall|i: int| 0 <= i < start implies is_separator(#[trigger] block[i]) by {
        assert(block[i] == front[i]);
    }
    assert(block[start] == word[0]);
    after_separators_skips(block, 0, start);
    assert forall|i: int| start <= i < end implies #[trigger] block[i] != 0x3b by {
        assert(block[i] == word[i - start]);
    }
    if end < block.len() {
        assert(block[end] == rest[0]);
    }
    place_of_skips(block, 0x3b, start, end);
    let field = block.subrange(start, end);
    assert(field =~= word);
    place_of_skips(field, 0x3d, 0, word.len() as int);
}

/// A number that was written in digits is read back, with a minus sign in front or
/// without one, as far as it fits; nothing but digits is a number.
pub proof fn written_numbers_are_read_back(value: Seq<u8>, number: nat, place: int)
    ensures
        latin(value) == crate::text::decimal_text(number) ==> number_value(value) == (if number
            <= i32::MAX {
            Some(number as int)
        } else {
            None
        }),
        latin(value) == crate::text::decimal_text(number) ==> number_value(seq![0x2du8] + value) == (
        if number <= i32::MAX {
            Some(-(number as int))
        } else {
            None
        }),
        value.len() == 0 ==> number_value(value) is None,
        0 <= place < value.len() && !(0x30 <= value[place] <= 0x39) && (place > 0 || value[0]
            != 0x2d) ==> number_value(value) is None,
{
    crate::text::decimal_round_trip(number);
    let digits = crate::text::decimal_text(number);
    let text = latin(value);
    if text == digits {
        assert(crate::text::is_digit(digits[0]));
        assert(text[0] == value[0] as char);
        assert((seq![0x2du8] + value).skip(1) =~= value);
    }
    if 0 <= place < value.len() && !(0x30 <= value[place] <= 0x39) && (place > 0 || value[0]
        != 0x2d) {
        assert(!crate::text::is_digit(text[place]));
        if value[0] == 0x2d {
            let behind = latin(value.skip(1));
            assert(behind[place - 1] == text[place]);
        }
    }
}

/// A number is read where it lies in the range, as what it is, and nowhere else.
pub proof fn ranges_are_kept(value: Seq<u8>, minimum: int, maximum: int)
    requires
        i8::MIN <= minimum,
        maximum <= i8::MAX,
    ensures
        match ranged_value(value, minimum, maximum) {
            Some(number) => number_value(value) == Some(number as int) && minimum <= number
                <= maximum,
            None => number_value(value) is None || number_value(value)->0 < minimum || number_value(
                value,
            )->0 > maximum,
        },
{
}

/// Truth values are written as a digit or as a word, and as nothing else.
pub proof fn truth_is_a_digit_or_a_word(value: Seq<u8>)
    ensures
        flag_value(vstd::utf8::encode_utf8("1"@)) == Some(true),
        flag_value(vstd::utf8::encode_utf8("true"@)) == Some(true),
        flag_value(vstd::utf8::encode_utf8("0"@)) == Some(false),
        flag_value(vstd::utf8::encode_utf8("false"@)) == Some(false),
        flag_value(value) is Some ==> value == vstd::utf8::encode_utf8("1"@) || value
            == vstd::utf8::encode_utf8("true"@) || value == vstd::utf8::encode_utf8("0"@) || value
            == vstd::utf8::encode_utf8("false"@),
{
    reveal_strlit("1");
    reveal_strlit("true");
    reveal_strlit("0");
    reveal_strlit("false");
    assert("1"@[0] != "0"@[0]);
    assert("true"@.len() == 4 && "false"@.len() == 5);
    crate::text::utf8_tells_texts_apart("1"@, "0"@);
    crate::text::utf8_tells_texts_apart("1"@, "false"@);
    crate::text::utf8_tells_texts_apart("true"@, "0"@);
    crate::text::utf8_tells_texts_apart("true"@, "false"@);
}

/// The version of a block is what its first version field says, where that is a number of
/// one byte; a block that does not say has the first version.
pub proof fn the_first_version_field_counts(listed: Seq<(Seq<u8>, Seq<u8>)>, place: int)
    requires
        0 <= place <= listed.len(),
        forall|i: int|
            0 <= i < place ==> (#[trigger] listed[i]).0 != vstd::utf8::encode_utf8("v"@),
        place < listed.len() ==> listed[place].0 == vstd::utf8::encode_utf8("v"@),
    ensures
        version_of(listed) == (if place < listed.len() && number_value(listed[place].1) is Some && 0
            <= number_value(listed[place].1)->0 <= 255 {
            number_value(listed[place].1)->0
        } else {
            1
        }),
    decreases listed.len(),
{
    if place > 0 {
        let rest = listed.skip(1);
        assert(listed[0].0 != vstd::utf8::encode_utf8("v"@));
        assert forall|i: int| 0 <= i < place - 1 implies (#[trigger] rest[i]).0
            != vstd::utf8::encode_utf8("v"@) by {
            assert(rest[i] == listed[i + 1]);
        }
        if place < listed.len() {
            assert(rest[place - 1] == listed[place]);
        }
        the_first_version_field_counts(rest, place - 1);
    }
}

} // verus!
