//! Characters, decimal numbers and comparisons shared by the state parsers.
use vstd::prelude::*;

verus! {

/// `String::push` appends one character and leaves the rest as it was.
pub assume_specification[ String::push ](text: &mut String, character: char)
    ensures
        final(text)@ == old(text)@.push(character),
;

/// The characters of a text, in order.
pub fn characters(text: &str) -> (result: Vec<char>)
    ensures
        result@ == text@,
{
    let mut result: Vec<char> = Vec::new();
    for character in iter: text.chars()
        invariant
            iter.seq() == text@,
            result@ == text@.take(iter.index()),
    {
        result.push(character);
        assert(result@ =~= text@.take(iter.index() + 1));
    }
    assert(text@.take(text@.len() as int) =~= text@);
    result
}

/// A text made of the given characters, in order.
pub fn text_of(characters: &[char]) -> (result: String)
    ensures
        result@ == characters@,
{
    let mut result = String::new();
    let mut index: usize = 0;
    while index < characters.len()
        invariant
            index <= characters.len(),
            result@ == characters@.take(index as int),
        decreases characters.len() - index,
    {
        result.push(characters[index]);
        index = index + 1;
        assert(result@ =~= characters@.take(index as int));
    }
    assert(characters@.take(characters@.len() as int) =~= characters@);
    result
}

/// Whether the bytes are the text's UTF-8 bytes.
pub fn bytes_spell(bytes: &[u8], text: &str) -> (result: bool)
    ensures
        result == (bytes@ == vstd::utf8::encode_utf8(text@)),
{
    let expected = text.as_bytes();
    if bytes.len() != expected.len() {
        return false;
    }
    let mut index: usize = 0;
    while index < bytes.len()
        invariant
            index <= bytes.len() == expected.len(),
            expected@ == vstd::utf8::encode_utf8(text@),
            forall|i: int| 0 <= i < index ==> bytes@[i] == expected@[i],
        decreases bytes.len() - index,
    {
        if bytes[index] != expected[index] {
            return false;
        }
        index = index + 1;
    }
    assert(bytes@ =~= expected@);
    true
}

/// Different texts have different UTF-8 bytes.
pub proof fn utf8_tells_texts_apart(left: Seq<char>, right: Seq<char>)
    ensures
        (vstd::utf8::encode_utf8(left) == vstd::utf8::encode_utf8(right)) == (left == right),
{
    vstd::utf8::encode_utf8_decode_utf8(left);
    vstd::utf8::encode_utf8_decode_utf8(right);
}

/// Whether the two texts are the same.
pub fn same_text(left: &str, right: &str) -> (result: bool)
    ensures
        result == (left@ == right@),
{
    proof {
        utf8_tells_texts_apart(left@, right@);
    }
    bytes_spell(left.as_bytes(), right)
}

/// Whether the character is one of `0` to `9`.
pub open spec fn is_digit(character: char) -> bool {
    '0' <= character <= '9'
}

/// Whether the text is one or more decimal digits.
pub open spec fn all_digits(text: Seq<char>) -> bool {
    text.len() > 0 && forall|i: int| 0 <= i < text.len() ==> is_digit(#[trigger] text[i])
}

/// The number that a row of decimal digits writes.
pub open spec fn decimal(text: Seq<char>) -> nat
    decreases text.len(),
{
    if text.len() == 0 {
        0
    } else {
        decimal(text.drop_last()) * 10 + (text.last() as u32 - '0' as u32) as nat
    }
}

/// Digits in front of other digits never make the number smaller.
pub proof fn decimal_grows(text: Seq<char>, count: int)
    requires
        0 <= count <= text.len(),
        forall|i: int| 0 <= i < text.len() ==> is_digit(#[trigger] text[i]),
    ensures
        decimal(text.take(count)) <= decimal(text),
    decreases text.len() - count,
{
    if count < text.len() {
        decimal_grows(text, count + 1);
        assert(text.take(count + 1).drop_last() =~= text.take(count));
    } else {
        assert(text.take(count) =~= text);
    }
}

/// The number that the digits write, where it is at most `limit`.
pub open spec fn digits_value(text: Seq<char>, limit: nat) -> Option<nat> {
    if all_digits(text) && decimal(text) <= limit {
        Some(decimal(text))
    } else {
        None
    }
}

/// Reads a row of decimal digits as a number of at most `limit`.
pub fn read_digits(text: &[char], limit: u64) -> (result: Option<u64>)
    ensures
        result.is_some() == digits_value(text@, limit as nat).is_some(),
        result.is_some() ==> result.unwrap() == digits_value(text@, limit as nat).unwrap(),
{
    if text.len() == 0 {
        return None;
    }
    let mut number: u128 = 0;
    let mut index: usize = 0;
    while index < text.len()
        invariant
            index <= text.len(),
            text.len() > 0,
            number <= limit,
            number == decimal(text@.take(index as int)),
            forall|i: int| 0 <= i < index ==> is_digit(#[trigger] text@[i]),
        decreases text.len() - index,
    {
        let character = text[index];
        if character < '0' || character > '9' {
            assert(!is_digit(text@[index as int]));
            return None;
        }
        assert(text@.take(index + 1).drop_last() =~= text@.take(index as int));
        let digit: u128 = (character as u32 - '0' as u32) as u128;
        number = number * 10 + digit;
        index = index + 1;
        if number > limit as u128 {
            proof {
                if all_digits(text@) {
                    decimal_grows(text@, index as int);
                }
            }
            return None;
        }
    }
    assert(text@.take(text@.len() as int) =~= text@);
    Some(number as u64)
}

/// A number with an optional `+` in front, where it is at most `limit`.
pub open spec fn unsigned_value(text: Seq<char>, limit: nat) -> Option<nat> {
    if text.len() > 0 && text[0] == '+' {
        digits_value(text.skip(1), limit)
    } else {
        digits_value(text, limit)
    }
}

/// Reads decimal digits with an optional `+` in front as a number of at most
/// `limit`.
pub fn read_unsigned(text: &[char], limit: u64) -> (result: Option<u64>)
    ensures
        result.is_some() == unsigned_value(text@, limit as nat).is_some(),
        result.is_some() ==> result.unwrap() == unsigned_value(text@, limit as nat).unwrap(),
{
    if text.len() > 0 && text[0] == '+' {
        let digits = vstd::slice::slice_subrange(text, 1, text.len());
        assert(digits@ =~= text@.skip(1));
        read_digits(digits, limit)
    } else {
        read_digits(text, limit)
    }
}

/// A number with an optional sign in front, where it is between `-limit - 1`
/// and `limit`.
pub open spec fn signed_value(text: Seq<char>, limit: nat) -> Option<int> {
    if text.len() > 0 && text[0] == '-' {
        match digits_value(text.skip(1), limit + 1) {
            Some(number) => Some(-(number as int)),
            None => None,
        }
    } else {
        match unsigned_value(text, limit) {
            Some(number) => Some(number as int),
            None => None,
        }
    }
}

/// Reads decimal digits with an optional sign in front as a number between
/// `-limit - 1` and `limit`.
pub fn read_signed(text: &[char], limit: u64) -> (result: Option<i128>)
    requires
        limit < u64::MAX,
    ensures
        result.is_some() == signed_value(text@, limit as nat).is_some(),
        result.is_some() ==> result.unwrap() == signed_value(text@, limit as nat).unwrap(),
{
    if text.len() > 0 && text[0] == '-' {
        let digits = vstd::slice::slice_subrange(text, 1, text.len());
        assert(digits@ =~= text@.skip(1));
        match read_digits(digits, limit + 1) {
            Some(number) => Some(-(number as i128)),
            None => None,
        }
    } else {
        match read_unsigned(text, limit) {
            Some(number) => Some(number as i128),
            None => None,
        }
    }
}

/// The digit that writes a number below ten.
pub open spec fn digit_character(number: nat) -> char {
    ('0' as u32 + number) as char
}

/// The decimal digits of a number, without leading zeros.
pub open spec fn decimal_text(number: nat) -> Seq<char>
    decreases number,
{
    if number < 10 {
        seq![digit_character(number)]
    } else {
        decimal_text(number / 10).push(digit_character(number % 10))
    }
}

/// The decimal digits of a number, behind a `-` where it is negative.
pub open spec fn signed_text(number: int) -> Seq<char> {
    if number < 0 {
        seq!['-'] + decimal_text((-number) as nat)
    } else {
        decimal_text(number as nat)
    }
}

/// Appends the decimal digits of a number.
pub fn push_decimal(text: &mut String, number: u64)
    ensures
        final(text)@ == old(text)@ + decimal_text(number as nat),
    decreases number,
{
    if number >= 10 {
        push_decimal(text, number / 10);
    }
    let digit: u8 = 0x30 + (number % 10) as u8;
    text.push(digit as char);
    proof {
        assert(digit as char == digit_character((number % 10) as nat));
        if number < 10 {
            assert(text@ =~= old(text)@ + seq![digit_character(number as nat)]);
        } else {
            assert(text@ =~= old(text)@ + decimal_text(number as nat / 10).push(
                digit_character((number % 10) as nat),
            ));
        }
    }
}

/// Appends the decimal digits of a number, behind a `-` where it is negative.
pub fn push_signed(text: &mut String, number: i32)
    ensures
        final(text)@ == old(text)@ + signed_text(number as int),
{
    if number < 0 {
        text.push('-');
        push_decimal(text, (-(number as i64)) as u64);
        assert(text@ =~= old(text)@ + (seq!['-'] + decimal_text((-number) as nat)));
    } else {
        push_decimal(text, number as u64);
    }
}

/// What a number was written as, it is read back as.
pub proof fn decimal_round_trip(number: nat)
    ensures
        all_digits(decimal_text(number)),
        decimal(decimal_text(number)) == number,
    decreases number,
{
    if number >= 10 {
        decimal_round_trip(number / 10);
        let text = decimal_text(number);
        assert(text.drop_last() =~= decimal_text(number / 10));
        assert forall|i: int| 0 <= i < text.len() implies is_digit(#[trigger] text[i]) by {
            if i < text.len() - 1 {
                assert(text[i] == decimal_text(number / 10)[i]);
            }
        }
    } else {
        let text = decimal_text(number);
        assert(text.drop_last() =~= Seq::<char>::empty());
        reveal_with_fuel(decimal, 2);
    }
}

/// The first place at or after `from` that holds the character, or the end.
pub open spec fn mark(text: Seq<char>, character: char, from: int) -> int
    decreases text.len() - from,
{
    if 0 <= from < text.len() && text[from] != character {
        mark(text, character, from + 1)
    } else {
        from
    }
}

/// The first place at or after `from` that holds the character, or the end.
pub fn find(text: &[char], character: char, from: usize) -> (place: usize)
    requires
        from <= text@.len(),
    ensures
        place == mark(text@, character, from as int),
        from <= place <= text@.len(),
        place < text@.len() ==> text@[place as int] == character,
        forall|i: int| from <= i < place ==> text@[i] != character,
{
    let mut place: usize = from;
    while place < text.len() && text[place] != character
        invariant
            from <= place <= text@.len(),
            mark(text@, character, from as int) == mark(text@, character, place as int),
            forall|i: int| from <= i < place ==> text@[i] != character,
        decreases text@.len() - place,
    {
        place = place + 1;
    }
    place
}

pub proof fn mark_bounds(text: Seq<char>, character: char, from: int)
    requires
        0 <= from <= text.len(),
    ensures
        from <= mark(text, character, from) <= text.len(),
    decreases text.len() - from,
{
    if from < text.len() && text[from] != character {
        mark_bounds(text, character, from + 1);
    }
}

/// The parts of the text from `from` on, between the given characters.
pub open spec fn parts(text: Seq<char>, character: char, from: int) -> Seq<Seq<char>>
    decreases text.len() - from,
    when 0 <= from <= text.len()
    via parts_shrink
{
    let end = mark(text, character, from);
    if end < text.len() {
        seq![text.subrange(from, end)] + parts(text, character, end + 1)
    } else {
        seq![text.subrange(from, end)]
    }
}

#[via_fn]
proof fn parts_shrink(text: Seq<char>, character: char, from: int) {
    mark_bounds(text, character, from);
}

/// Whether the character is one of Unicode's white space characters.
pub open spec fn is_white_space(character: char) -> bool {
    let code = character as u32;
    ||| 0x09 <= code <= 0x0d
    ||| code == 0x20
    ||| code == 0x85
    ||| code == 0xa0
    ||| code == 0x1680
    ||| 0x2000 <= code <= 0x200a
    ||| code == 0x2028
    ||| code == 0x2029
    ||| code == 0x202f
    ||| code == 0x205f
    ||| code == 0x3000
}

/// Tells Unicode's white space characters from the others.
pub fn white_space(character: char) -> (result: bool)
    ensures
        result == is_white_space(character),
{
    let code: u32 = character as u32;
    (0x09 <= code && code <= 0x0d) || code == 0x20 || code == 0x85 || code == 0xa0 || code == 0x1680
        || (0x2000 <= code && code <= 0x200a) || code == 0x2028 || code == 0x2029 || code == 0x202f
        || code == 0x205f || code == 0x3000
}

/// The text without the white space at its two ends.
pub open spec fn trimmed(text: Seq<char>) -> Seq<char>
    decreases text.len(),
{
    if text.len() > 0 && is_white_space(text[0]) {
        trimmed(text.skip(1))
    } else if text.len() > 0 && is_white_space(text.last()) {
        trimmed(text.drop_last())
    } else {
        text
    }
}

/// The text without the white space at its two ends.
pub fn trim(text: &[char]) -> (result: &[char])
    ensures
        result@ == trimmed(text@),
{
    let mut start: usize = 0;
    let mut end: usize = text.len();
    assert(text@.subrange(0, text@.len() as int) =~= text@);
    while start < end && white_space(text[start])
        invariant
            start <= end == text.len(),
            trimmed(text@.subrange(start as int, end as int)) == trimmed(text@),
        decreases end - start,
    {
        assert(text@.subrange(start as int, end as int).skip(1) =~= text@.subrange(
            start + 1,
            end as int,
        ));
        start = start + 1;
    }
    while start < end && white_space(text[end - 1])
        invariant
            start <= end <= text.len(),
            start < end ==> !is_white_space(text@[start as int]),
            trimmed(text@.subrange(start as int, end as int)) == trimmed(text@),
        decreases end - start,
    {
        assert(text@.subrange(start as int, end as int).drop_last() =~= text@.subrange(
            start as int,
            end - 1,
        ));
        end = end - 1;
    }
    vstd::slice::slice_subrange(text, start, end)
}

/// The first place at or after `from` where white space begins or ends: where
/// a character is white space or not, as asked.
pub open spec fn white_edge(text: Seq<char>, from: int, white: bool) -> int
    decreases text.len() - from,
{
    if 0 <= from < text.len() && is_white_space(text[from]) != white {
        white_edge(text, from + 1, white)
    } else {
        from
    }
}

proof fn white_edge_bounds(text: Seq<char>, from: int, white: bool)
    requires
        0 <= from <= text.len(),
    ensures
        from <= white_edge(text, from, white) <= text.len(),
        white_edge(text, from, white) < text.len() ==> is_white_space(
            text[white_edge(text, from, white)],
        ) == white,
    decreases text.len() - from,
{
    if from < text.len() && is_white_space(text[from]) != white {
        white_edge_bounds(text, from + 1, white);
    }
}

/// The words of the text from `from` on, with white space between them.
pub open spec fn words_from(text: Seq<char>, from: int) -> Seq<Seq<char>>
    decreases text.len() - from,
    when 0 <= from <= text.len()
    via words_shrink
{
    let start = white_edge(text, from, false);
    if start >= text.len() {
        Seq::empty()
    } else {
        let end = white_edge(text, start, true);
        seq![text.subrange(start, end)] + words_from(text, end)
    }
}

#[via_fn]
proof fn words_shrink(text: Seq<char>, from: int) {
    white_edge_bounds(text, from, false);
    let start = white_edge(text, from, false);
    if start < text.len() {
        white_edge_bounds(text, start, true);
    }
}

/// An edge stays where it is when the text in front of it goes.
proof fn white_edge_shifts(text: Seq<char>, by: int, from: int, white: bool)
    requires
        0 <= by,
        0 <= from,
        by + from <= text.len(),
    ensures
        white_edge(text, by + from, white) == by + white_edge(text.skip(by), from, white),
    decreases text.len() - from,
{
    if by + from < text.len() {
        assert(text.skip(by)[from] == text[by + from]);
        if is_white_space(text[by + from]) != white {
            white_edge_shifts(text, by, from + 1, white);
        }
    }
}

/// Words stay what they are when the text in front of them goes.
proof fn words_shift(text: Seq<char>, by: int, from: int)
    requires
        0 <= by,
        0 <= from,
        by + from <= text.len(),
    ensures
        words_from(text, by + from) == words_from(text.skip(by), from),
    decreases text.len() - from,
{
    let rest = text.skip(by);
    white_edge_shifts(text, by, from, false);
    white_edge_bounds(rest, from, false);
    let start = white_edge(rest, from, false);
    if start < rest.len() {
        white_edge_shifts(text, by, start, true);
        white_edge_bounds(rest, start, true);
        let end = white_edge(rest, start, true);
        assert(end > start) by {
            assert(!is_white_space(rest[start]));
            white_edge_bounds(rest, start + 1, true);
        }
        words_shift(text, by, end);
        assert(rest.subrange(start, end) =~= text.subrange(by + start, by + end));
    }
}

/// An edge lies behind the characters that are no edge.
proof fn white_edge_skips(text: Seq<char>, from: int, to: int, white: bool)
    requires
        0 <= from <= to <= text.len(),
        forall|i: int| from <= i < to ==> is_white_space(#[trigger] text[i]) != white,
        to < text.len() ==> is_white_space(text[to]) == white,
    ensures
        white_edge(text, from, white) == to,
    decreases to - from,
{
    if from < to {
        assert(is_white_space(text[from]) != white);
        white_edge_skips(text, from + 1, to, white);
    }
}

/// White space parts words and is no part of them: a text of white space has no
/// word, and behind white space a row of other characters that ends the text, or has
/// white space behind it, is its first word.
pub proof fn white_space_parts_words(white: Seq<char>, word: Seq<char>, rest: Seq<char>)
    requires
        forall|i: int| 0 <= i < white.len() ==> is_white_space(#[trigger] white[i]),
        forall|i: int| 0 <= i < word.len() ==> !is_white_space(#[trigger] word[i]),
        rest.len() > 0 ==> is_white_space(rest[0]),
    ensures
        words_from(white, 0).len() == 0,
        word.len() > 0 ==> words_from(white + word + rest, 0) == seq![word] + words_from(rest, 0),
{
    white_edge_skips(white, 0, white.len() as int, false);
    if word.len() > 0 {
        let text = white + word + rest;
        let start = white.len() as int;
        let end = start + word.len();
        assert forall|i: int| 0 <= i < start implies is_white_space(#[trigger] text[i]) by {
            assert(text[i] == white[i]);
        }
        assert(text[start] == word[0]);
        white_edge_skips(text, 0, start, false);
        assert forall|i: int| start <= i < end implies !is_white_space(#[trigger] text[i]) by {
            assert(text[i] == word[i - start]);
        }
        if end < text.len() {
            assert(text[end] == rest[0]);
        }
        white_edge_skips(text, start, end, true);
        words_shift(text, end, 0);
        assert(text.skip(end) =~= rest);
        assert(text.subrange(start, end) =~= word);
    }
}

/// The characters below the visible ones that are white space are the tab, the line
/// ends and the space; of the visible ASCII characters none is.
pub proof fn ascii_white_space(character: char)
    requires
        character as u32 <= 0x7e,
    ensures
        is_white_space(character) == (character == '\t' || character == '\n' || character
            == '\u{b}' || character == '\u{c}' || character == '\r' || character == ' '),
{
}

/// What is trimmed is the white space at the ends: around a text that starts and ends
/// with other characters, any white space goes and nothing else does.
pub proof fn trimming_takes_the_white_space(
    front: Seq<char>,
    middle: Seq<char>,
    back: Seq<char>,
)
    requires
        forall|i: int| 0 <= i < front.len() ==> is_white_space(#[trigger] front[i]),
        forall|i: int| 0 <= i < back.len() ==> is_white_space(#[trigger] back[i]),
        middle.len() > 0 ==> !is_white_space(middle[0]) && !is_white_space(middle.last()),
    ensures
        trimmed(front + middle + back) == middle,
    decreases front.len() + back.len(),
{
    let text = front + middle + back;
    if front.len() > 0 {
        assert(text[0] == front[0]);
        assert(text.skip(1) =~= front.skip(1) + middle + back);
        assert forall|i: int| 0 <= i < front.skip(1).len() implies is_white_space(
            #[trigger] front.skip(1)[i],
        ) by {
            assert(front.skip(1)[i] == front[i + 1]);
        }
        trimming_takes_the_white_space(front.skip(1), middle, back);
    } else if middle.len() == 0 && back.len() > 0 {
        assert(text[0] == back[0]);
        assert(text.skip(1) =~= front + middle + back.skip(1));
        assert forall|i: int| 0 <= i < back.skip(1).len() implies is_white_space(
            #[trigger] back.skip(1)[i],
        ) by {
            assert(back.skip(1)[i] == back[i + 1]);
        }
        trimming_takes_the_white_space(front, middle, back.skip(1));
    } else if back.len() > 0 {
        assert(text[0] == middle[0]);
        assert(text.last() == back.last());
        assert(text.drop_last() =~= front + middle + back.drop_last());
        trimming_takes_the_white_space(front, middle, back.drop_last());
    } else {
        assert(text =~= middle);
    }
}

/// A mark stays where it is when the text in front of it goes.
proof fn mark_shifts(text: Seq<char>, character: char, by: int, from: int)
    requires
        0 <= by,
        0 <= from,
        by + from <= text.len(),
    ensures
        mark(text, character, by + from) == by + mark(text.skip(by), character, from),
    decreases text.len() - from,
{
    if by + from < text.len() {
        assert(text.skip(by)[from] == text[by + from]);
        if text[by + from] != character {
            mark_shifts(text, character, by, from + 1);
        }
    }
}

/// Parts stay what they are when the text in front of them goes.
proof fn parts_shift(text: Seq<char>, character: char, by: int, from: int)
    requires
        0 <= by,
        0 <= from,
        by + from <= text.len(),
    ensures
        parts(text, character, by + from) == parts(text.skip(by), character, from),
    decreases text.len() - from,
{
    let rest = text.skip(by);
    mark_shifts(text, character, by, from);
    mark_bounds(rest, character, from);
    let end = mark(rest, character, from);
    assert(rest.subrange(from, end) =~= text.subrange(by + from, by + end));
    if end < rest.len() {
        parts_shift(text, character, by, end + 1);
    }
}

/// A mark lies at the first place that holds the character.
pub proof fn mark_is_the_first(text: Seq<char>, character: char, from: int, to: int)
    requires
        0 <= from <= to <= text.len(),
        forall|i: int| from <= i < to ==> #[trigger] text[i] != character,
        to < text.len() ==> text[to] == character,
    ensures
        mark(text, character, from) == to,
    decreases to - from,
{
    if from < to {
        mark_is_the_first(text, character, from + 1, to);
    }
}

/// Parts are what stands between the given characters: a text without one is its own
/// only part, and the parts of two texts with one between them are those of the first
/// and those of the second.
pub proof fn marks_part_texts(first: Seq<char>, character: char, second: Seq<char>)
    ensures
        !first.contains(character) ==> parts(first, character, 0) == seq![first],
        parts(first + seq![character] + second, character, 0) == parts(first, character, 0) + parts(
            second,
            character,
            0,
        ),
    decreases first.len(),
{
    let text = first + seq![character] + second;
    mark_bounds(first, character, 0);
    let end = mark(first, character, 0);
    mark_in_bounds(first, character, 0);
    assert forall|i: int| 0 <= i < end implies #[trigger] text[i] != character by {
        assert(text[i] == first[i]);
    }
    if end < first.len() {
        assert(first.contains(first[end]));
        assert(text[end] == first[end]);
        mark_is_the_first(text, character, 0, end);
        let rest = first.skip(end + 1);
        parts_shift(first, character, end + 1, 0);
        parts_shift(text, character, end + 1, 0);
        assert(text.skip(end + 1) =~= rest + seq![character] + second);
        marks_part_texts(rest, character, second);
        assert(text.subrange(0, end) =~= first.subrange(0, end));
        assert(parts(text, character, 0) =~= parts(first, character, 0) + parts(
            second,
            character,
            0,
        ));
    } else {
        assert(text[end] == character);
        mark_is_the_first(text, character, 0, end);
        parts_shift(text, character, end + 1, 0);
        assert(text.skip(end + 1) =~= second);
        assert(text.subrange(0, end) =~= first);
        assert(first.subrange(0, end) =~= first);
    }
}

/// What a mark says of the characters in front of it.
proof fn mark_in_bounds(text: Seq<char>, character: char, from: int)
    requires
        0 <= from <= text.len(),
    ensures
        forall|i: int| from <= i < mark(text, character, from) ==> #[trigger] text[i] != character,
        mark(text, character, from) < text.len() ==> text[mark(text, character, from)] == character,
    decreases text.len() - from,
{
    if from < text.len() && text[from] != character {
        mark_in_bounds(text, character, from + 1);
    }
}

/// A number that was written is read back, with a sign or without one, exactly where
/// it is within the limit.
pub proof fn written_numbers_are_read_back(number: nat, limit: nat)
    ensures
        unsigned_value(decimal_text(number), limit) == (if number <= limit {
            Some(number)
        } else {
            None
        }),
        unsigned_value(seq!['+'] + decimal_text(number), limit) == (if number <= limit {
            Some(number)
        } else {
            None
        }),
        signed_value(decimal_text(number), limit) == (if number <= limit {
            Some(number as int)
        } else {
            None
        }),
        signed_value(seq!['-'] + decimal_text(number), limit) == (if number <= limit + 1 {
            Some(-(number as int))
        } else {
            None
        }),
{
    decimal_round_trip(number);
    let text = decimal_text(number);
    assert(is_digit(text[0]));
    assert((seq!['+'] + text).skip(1) =~= text);
    assert((seq!['-'] + text).skip(1) =~= text);
}

/// A text that holds anything but digits behind an optional sign is no number, and
/// neither is a text without a digit.
pub proof fn only_digits_are_numbers(text: Seq<char>, limit: nat, place: int)
    requires
        text.len() == 0 || (0 <= place < text.len() && !('0' <= text[place] <= '9') && (place > 0
            || text.len() == 1 || (text[0] != '+' && text[0] != '-'))),
    ensures
        unsigned_value(text, limit) is None,
        signed_value(text, limit) is None,
{
    if text.len() > 0 {
        assert(!is_digit(text[place]));
        if place > 0 {
            assert(text.skip(1)[place - 1] == text[place]);
        } else {
            assert(text.len() == 1 ==> text.skip(1).len() == 0);
        }
    }
}

/// The characters of the slices.
pub open spec fn spellings(words: Seq<&[char]>) -> Seq<Seq<char>> {
    Seq::new(words.len(), |i: int| words[i]@)
}

/// The words of the text, with white space between them.
pub fn words<'a>(text: &'a [char]) -> (words: Vec<&'a [char]>)
    ensures
        spellings(words@) == words_from(text@, 0),
{
    let mut words: Vec<&'a [char]> = Vec::new();
    let mut from: usize = 0;
    assert(spellings(words@) =~= Seq::<Seq<char>>::empty());
    assert(words_from(text@, 0) =~= spellings(words@) + words_from(text@, 0));
    while from < text.len()
        invariant
            from <= text@.len(),
            words_from(text@, 0) == spellings(words@) + words_from(text@, from as int),
        decreases text@.len() - from,
    {
        let mut start: usize = from;
        while start < text.len() && white_space(text[start])
            invariant
                from <= start <= text@.len(),
                white_edge(text@, from as int, false) == white_edge(text@, start as int, false),
            decreases text@.len() - start,
        {
            start = start + 1;
        }
        if start == text.len() {
            assert(words_from(text@, from as int) =~= Seq::<Seq<char>>::empty());
            assert(spellings(words@) + Seq::<Seq<char>>::empty() =~= spellings(words@));
            return words;
        }
        let mut end: usize = start;
        while end < text.len() && !white_space(text[end])
            invariant
                start <= end <= text@.len(),
                white_edge(text@, start as int, true) == white_edge(text@, end as int, true),
            decreases text@.len() - end,
        {
            end = end + 1;
        }
        let ghost before = spellings(words@);
        let word = vstd::slice::slice_subrange(text, start, end);
        words.push(word);
        proof {
            assert(spellings(words@) =~= before.push(word@));
            assert(before + (seq![word@] + words_from(text@, end as int)) =~= before.push(word@)
                + words_from(text@, end as int));
        }
        from = end;
    }
    assert(words_from(text@, from as int) =~= Seq::<Seq<char>>::empty());
    assert(spellings(words@) + Seq::<Seq<char>>::empty() =~= spellings(words@));
    words
}

} // verus!
