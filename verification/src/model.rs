//! Handing a model file to the page: which file is taken, what the page is
//! told, and the string literals that carry it.
//!
//! The file itself is read on the main thread. Nothing here is reachable from
//! the audio thread.
use crate::text::{characters, decimal_text, push_decimal, same_text, text_of, trim, trimmed};
use vstd::prelude::*;

verus! {

/// Refuse anything larger before reading it. Generous enough for a detailed
/// car, small enough that a wrong pick cannot stall the host's main thread
/// while it reads a DVD image off a network drive.
pub const MAX_BYTES: u64 = 100_663_296;

/// How many bytes a megabyte has.
pub const MEGABYTE: u64 = 1_048_576;

/// Points sent to the page. Chosen against the compatibility editor's canvas:
/// a few thousand points read as a solid object at this size, and the whole
/// payload stays a single evaluate-JavaScript call.
pub const BUDGET: usize = 9_000;

/// What stands for one character inside a string literal.
pub open spec fn escape(character: char) -> Seq<char> {
    if character == '"' {
        seq!['\\', '"']
    } else if character == '\\' {
        seq!['\\', '\\']
    } else if character == '\n' {
        seq!['\\', 'n']
    } else if character == '\r' {
        seq!['\\', 'r']
    } else if character == '\u{2028}' {
        seq!['\\', 'u', '2', '0', '2', '8']
    } else if character == '\u{2029}' {
        seq!['\\', 'u', '2', '0', '2', '9']
    } else if (character as u32) < 0x20 {
        Seq::empty()
    } else {
        seq![character]
    }
}

/// What stands for a text inside a string literal.
pub open spec fn escaped(text: Seq<char>) -> Seq<char>
    decreases text.len(),
{
    if text.len() == 0 {
        Seq::empty()
    } else {
        escaped(text.drop_last()) + escape(text.last())
    }
}

/// The string literal for a text.
pub open spec fn quoted(text: Seq<char>) -> Seq<char> {
    seq!['"'] + escaped(text) + seq!['"']
}

/// Whether a string literal can say the character.
pub open spec fn is_kept(character: char) -> bool {
    (character as u32) >= 0x20 || character == '\n' || character == '\r'
}

/// The text without the characters that a string literal drops.
pub open spec fn kept(text: Seq<char>) -> Seq<char>
    decreases text.len(),
{
    if text.len() == 0 {
        Seq::empty()
    } else if is_kept(text[0]) {
        seq![text[0]] + kept(text.skip(1))
    } else {
        kept(text.skip(1))
    }
}

/// Reads a string literal from behind its opening quote: its value, and the
/// place behind its closing quote. A line end inside the literal, or an escape
/// other than those above, makes it none.
pub open spec fn literal_value(source: Seq<char>, from: int) -> Option<(Seq<char>, int)>
    decreases source.len() - from,
{
    if from < 0 || from >= source.len() {
        None
    } else if source[from] == '"' {
        Some((Seq::empty(), from + 1))
    } else if source[from] == '\n' || source[from] == '\r' || source[from] == '\u{2028}'
        || source[from] == '\u{2029}' {
        None
    } else if source[from] == '\\' {
        if from + 1 >= source.len() {
            None
        } else if source[from + 1] == '"' || source[from + 1] == '\\' {
            with_first(source[from + 1], literal_value(source, from + 2))
        } else if source[from + 1] == 'n' {
            with_first('\n', literal_value(source, from + 2))
        } else if source[from + 1] == 'r' {
            with_first('\r', literal_value(source, from + 2))
        } else if from + 6 <= source.len() && source.subrange(from + 1, from + 6) == seq![
            'u',
            '2',
            '0',
            '2',
            '8',
        ] {
            with_first('\u{2028}', literal_value(source, from + 6))
        } else if from + 6 <= source.len() && source.subrange(from + 1, from + 6) == seq![
            'u',
            '2',
            '0',
            '2',
            '9',
        ] {
            with_first('\u{2029}', literal_value(source, from + 6))
        } else {
            None
        }
    } else {
        with_first(source[from], literal_value(source, from + 1))
    }
}

/// A read literal with one more character in front.
pub open spec fn with_first(first: char, rest: Option<(Seq<char>, int)>) -> Option<
    (Seq<char>, int),
> {
    match rest {
        Some((value, end)) => Some((seq![first] + value, end)),
        None => None,
    }
}

/// The escapes of a text, taken from its front.
proof fn escaped_from_front(text: Seq<char>)
    requires
        text.len() > 0,
    ensures
        escaped(text) == escape(text[0]) + escaped(text.skip(1)),
    decreases text.len(),
{
    if text.len() == 1 {
        assert(text.drop_last() =~= Seq::<char>::empty());
        assert(text.skip(1) =~= Seq::<char>::empty());
        reveal_with_fuel(escaped, 2);
        assert(escaped(text) =~= escape(text[0]));
        assert(escape(text[0]) + escaped(text.skip(1)) =~= escape(text[0]));
    } else {
        escaped_from_front(text.drop_last());
        assert(text.drop_last().skip(1) =~= text.skip(1).drop_last());
        assert(escaped(text) =~= escape(text[0]) + (escaped(text.skip(1).drop_last()) + escape(
            text.last(),
        )));
        assert(text.skip(1).last() == text.last());
    }
}

/// A literal reads back from any place in a longer source.
proof fn literal_reads_back(before: Seq<char>, text: Seq<char>, after: Seq<char>)
    ensures
        literal_value(before + escaped(text) + seq!['"'] + after, before.len() as int) == Some(
            (kept(text), (before.len() + escaped(text).len() + 1) as int),
        ),
    decreases text.len(),
{
    let source = before + escaped(text) + seq!['"'] + after;
    let from = before.len() as int;
    if text.len() == 0 {
        assert(source[from] == '"');
    } else {
        let first = text[0];
        let rest = text.skip(1);
        escaped_from_front(text);
        let longer = before + escape(first);
        literal_reads_back(longer, rest, after);
        assert(longer + escaped(rest) + seq!['"'] + after =~= source);
        assert(forall|i: int|
            0 <= i < escape(first).len() ==> source[from + i] == #[trigger] escape(first)[i]);
        if first == '\u{2028}' || first == '\u{2029}' {
            assert(source[from] == escape(first)[0]);
            assert(source[from + 1] == escape(first)[1]);
            assert(source.subrange(from + 1, from + 6) =~= escape(first).skip(1));
            assert(source.subrange(from + 1, from + 6)[4] == escape(first)[5]);
            if first == '\u{2028}' {
                assert(escape(first).skip(1) =~= seq!['u', '2', '0', '2', '8']);
            } else {
                assert(seq!['u', '2', '0', '2', '8'][4] == '8');
                assert(escape(first).skip(1) =~= seq!['u', '2', '0', '2', '9']);
            }
        } else if escape(first).len() > 0 {
            assert(source[from] == escape(first)[0]);
            if escape(first).len() == 2 {
                assert(source[from + 1] == escape(first)[1]);
            }
        } else {
            assert(longer =~= before);
        }
    }
}

/// Whatever the text holds, its literal stands for that text and ends at its
/// own last quote: nothing in a text can end the literal early. Only control
/// characters that no escape is known for are missing from what it says.
pub proof fn quoted_text_reads_back(text: Seq<char>, after: Seq<char>)
    ensures
        quoted(text)[0] == '"',
        literal_value(quoted(text) + after, 1) == Some((kept(text), quoted(text).len() as int)),
{
    literal_reads_back(seq!['"'], text, after);
}

/// A text without control characters is what its literal says.
pub proof fn plain_text_is_kept(text: Seq<char>)
    requires
        forall|i: int| 0 <= i < text.len() ==> is_kept(#[trigger] text[i]),
    ensures
        kept(text) == text,
    decreases text.len(),
{
    if text.len() > 0 {
        assert forall|i: int| 0 <= i < text.skip(1).len() implies is_kept(
            #[trigger] text.skip(1)[i],
        ) by {
            assert(text.skip(1)[i] == text[i + 1]);
        }
        assert(is_kept(text[0]));
        plain_text_is_kept(text.skip(1));
        assert(seq![text[0]] + text.skip(1) =~= text);
    }
}

/// Appends what stands for one character inside a string literal.
fn push_escape(literal: &mut String, character: char)
    ensures
        final(literal)@ == old(literal)@ + escape(character),
{
    if character == '"' || character == '\\' {
        literal.push('\\');
        literal.push(character);
    } else if character == '\n' {
        literal.push('\\');
        literal.push('n');
    } else if character == '\r' {
        literal.push('\\');
        literal.push('r');
    } else if character == '\u{2028}' || character == '\u{2029}' {
        literal.push('\\');
        literal.push('u');
        literal.push('2');
        literal.push('0');
        literal.push('2');
        if character == '\u{2028}' {
            literal.push('8');
        } else {
            literal.push('9');
        }
    } else if character as u32 >= 0x20 {
        literal.push(character);
    }
    assert(literal@ =~= old(literal)@ + escape(character));
}

/// A JavaScript string literal for arbitrary text.
///
/// Every path here comes from the user's own disk, but it still reaches the
/// page as source that gets evaluated, so a quote or a backslash in a
/// filename must not be able to end the literal.
pub fn quote(text: &str) -> (literal: String)
    ensures
        literal@ == quoted(text@),
{
    let source = characters(text);
    let mut literal = String::new();
    literal.push('"');
    assert(text@.take(0) =~= Seq::<char>::empty());
    assert(literal@ =~= seq!['"'] + escaped(text@.take(0)));
    let mut index: usize = 0;
    while index < source.len()
        invariant
            source@ == text@,
            index <= source.len(),
            literal@ == seq!['"'] + escaped(text@.take(index as int)),
        decreases source.len() - index,
    {
        let ghost before = literal@;
        push_escape(&mut literal, source[index]);
        index = index + 1;
        assert(text@.take(index as int).drop_last() =~= text@.take(index - 1));
        assert(text@.take(index as int).last() == source@[index - 1]);
        assert(literal@ =~= seq!['"'] + escaped(text@.take(index as int)));
    }
    literal.push('"');
    assert(text@.take(text@.len() as int) =~= text@);
    assert(literal@ =~= quoted(text@));
    literal
}

/// The character with an ASCII capital made small.
pub open spec fn lowered(character: char) -> char {
    if 'A' <= character <= 'Z' {
        (character as u32 + 32) as char
    } else {
        character
    }
}

/// The text with its ASCII capitals made small.
pub open spec fn lowered_text(text: Seq<char>) -> Seq<char> {
    Seq::new(text.len(), |i: int| lowered(text[i]))
}

/// The text with its ASCII capitals made small.
pub fn ascii_lowercase(text: &str) -> (result: String)
    ensures
        result@ == lowered_text(text@),
{
    let source = characters(text);
    let mut result = String::new();
    let mut index: usize = 0;
    while index < source.len()
        invariant
            source@ == text@,
            index <= source.len(),
            result@ == lowered_text(text@.take(index as int)),
        decreases source.len() - index,
    {
        let character = source[index];
        if 'A' <= character && character <= 'Z' {
            let small: u8 = character as u8 + 32;
            result.push(small as char);
        } else {
            result.push(character);
        }
        index = index + 1;
        assert(result@ =~= lowered_text(text@.take(index as int)));
    }
    assert(text@.take(text@.len() as int) =~= text@);
    result
}

/// Why the page gets no model.
#[derive(Debug)]
pub enum Problem {
    /// The path is blank.
    NotChosen,
    /// The file has another extension than `obj`: this one, in small letters.
    WrongKind(String),
    /// The file could not be looked at, for the reason given.
    Unopened(String),
    /// The file is larger than the limit: it has this many bytes.
    TooLarge(u64),
    /// The file could not be read, for the reason given.
    Unreadable(String),
    /// The file breaks the format, for the reason given.
    Malformed(String),
    /// No point of the file can be drawn.
    NoGeometry,
}

impl Problem {
    /// The sentence that the page shows.
    pub open spec fn sentence(self) -> Seq<char> {
        match self {
            Problem::NotChosen => "No file chosen"@,
            Problem::WrongKind(extension) => "Neta reads .obj files, not ."@ + extension@,
            Problem::Unopened(reason) => "Cannot open that file: "@ + reason@,
            Problem::TooLarge(size) => "That file is "@ + decimal_text((size / MEGABYTE) as nat)
                + " MB. Neta loads models up to 96 MB."@,
            Problem::Unreadable(reason) => "Cannot read it: "@ + reason@,
            Problem::Malformed(reason) => "That OBJ is malformed: "@ + reason@,
            Problem::NoGeometry => "That file has no usable geometry"@,
        }
    }

    /// The sentence that the page shows.
    pub fn message(&self) -> (message: String)
        ensures
            message@ == self.sentence(),
    {
        match self {
            Problem::NotChosen => String::from_str("No file chosen"),
            Problem::WrongKind(extension) => String::from_str("Neta reads .obj files, not .").concat(
                extension.as_str(),
            ),
            Problem::Unopened(reason) => String::from_str("Cannot open that file: ").concat(
                reason.as_str(),
            ),
            Problem::TooLarge(size) => {
                let mut message = String::from_str("That file is ");
                push_decimal(&mut message, *size / MEGABYTE);
                message.append(" MB. Neta loads models up to 96 MB.");
                message
            },
            Problem::Unreadable(reason) => String::from_str("Cannot read it: ").concat(
                reason.as_str(),
            ),
            Problem::Malformed(reason) => String::from_str("That OBJ is malformed: ").concat(
                reason.as_str(),
            ),
            Problem::NoGeometry => String::from_str("That file has no usable geometry"),
        }
    }
}

/// The path that a message of the page asks to load: what stands behind
/// `model ` at its start. Any other message asks for nothing.
pub fn requested_path(message: &str) -> (path: Option<String>)
    ensures
        match path {
            Some(path) => message@ == "model "@ + path@,
            None => !"model "@.is_prefix_of(message@),
        },
{
    proof {
        reveal_strlit("model ");
    }
    let source = characters(message);
    if source.len() < 6 {
        return None;
    }
    let (start, rest) = source.as_slice().split_at(6);
    let word = text_of(start);
    if same_text(word.as_str(), "model ") {
        let path = text_of(rest);
        assert(message@ =~= "model "@ + path@);
        Some(path)
    } else {
        proof {
            if "model "@.is_prefix_of(message@) {
                assert(word@ =~= "model "@);
            }
        }
        None
    }
}

/// The path without the white space around it, unless nothing is left.
pub fn chosen_path(path: &str) -> (result: Result<String, Problem>)
    ensures
        match result {
            Ok(chosen) => chosen@ == trimmed(path@) && trimmed(path@).len() > 0,
            Err(problem) => problem == Problem::NotChosen && trimmed(path@).len() == 0,
        },
{
    let source = characters(path);
    let chosen = trim(source.as_slice());
    if chosen.len() == 0 {
        Err(Problem::NotChosen)
    } else {
        Ok(text_of(chosen))
    }
}

/// Takes files whose extension is `obj` in any case. A file without an
/// extension counts as one whose extension is empty.
pub fn check_extension(extension: Option<&str>) -> (result: Result<(), Problem>)
    ensures
        ({
            let small = lowered_text(match extension {
                Some(text) => text@,
                None => Seq::empty(),
            });
            match result {
                Ok(()) => small == "obj"@,
                Err(problem) => small != "obj"@ && problem is WrongKind && problem->WrongKind_0@
                    == small,
            }
        }),
{
    let small = match extension {
        Some(text) => ascii_lowercase(text),
        None => String::new(),
    };
    assert(lowered_text(Seq::empty()) =~= Seq::<char>::empty());
    if same_text(small.as_str(), "obj") {
        Ok(())
    } else {
        Err(Problem::WrongKind(small))
    }
}

/// Takes files of at most the largest size.
pub fn check_size(size: u64) -> (result: Result<(), Problem>)
    ensures
        match result {
            Ok(()) => size <= MAX_BYTES,
            Err(problem) => size > MAX_BYTES && problem == Problem::TooLarge(size),
        },
{
    if size > MAX_BYTES {
        Err(Problem::TooLarge(size))
    } else {
        Ok(())
    }
}

/// The script that hands the page a reason why it has no model.
pub open spec fn failed_script(problem: Problem) -> Seq<char> {
    "window.__neta_model_failed&&window.__neta_model_failed("@ + quoted(problem.sentence()) + ");"@
}

/// The script that hands the page a reason why it has no model.
pub fn failed(problem: &Problem) -> (script: String)
    ensures
        script@ == failed_script(*problem),
{
    let mut script = String::from_str("window.__neta_model_failed&&window.__neta_model_failed(");
    script.append(quote(problem.message().as_str()).as_str());
    script.append(");");
    script
}

/// The texts with commas between them.
pub open spec fn joined(texts: Seq<Seq<char>>) -> Seq<char>
    decreases texts.len(),
{
    if texts.len() == 0 {
        Seq::empty()
    } else if texts.len() == 1 {
        texts[0]
    } else {
        joined(texts.drop_last()) + ","@ + texts.last()
    }
}

/// What the page calls the model: the file's name without its extension.
pub open spec fn model_name(stem: Option<Seq<char>>) -> Seq<char> {
    match stem {
        Some(name) => name,
        None => "model"@,
    }
}

/// The script that hands the page a point cloud: the three coordinates of each
/// point in turn.
pub open spec fn loaded_script(name: Seq<char>, coordinates: Seq<Seq<char>>) -> Seq<char> {
    "window.__neta_model&&window.__neta_model("@ + quoted(name) + ",["@ + joined(coordinates)
        + "]);"@
}

/// The texts of the strings.
pub open spec fn texts(strings: Seq<String>) -> Seq<Seq<char>> {
    Seq::new(strings.len(), |i: int| strings[i]@)
}

/// The script that hands the page a point cloud. There are three coordinates,
/// already in digits, to a point; a file whose name has no stem is called
/// `model`.
pub fn loaded(stem: Option<&str>, coordinates: &[String]) -> (script: String)
    ensures
        script@ == loaded_script(
            model_name(
                match stem {
                    Some(name) => Some(name@),
                    None => None,
                },
            ),
            texts(coordinates@),
        ),
{
    let name = match stem {
        Some(name) => name,
        None => "model",
    };
    let mut script = String::from_str("window.__neta_model&&window.__neta_model(");
    script.append(quote(name).as_str());
    script.append(",[");
    let ghost opening = script@;
    let mut index: usize = 0;
    assert(texts(coordinates@.take(0)) =~= Seq::<Seq<char>>::empty());
    assert(script@ =~= opening + joined(texts(coordinates@.take(0))));
    while index < coordinates.len()
        invariant
            index <= coordinates.len(),
            script@ == opening + joined(texts(coordinates@.take(index as int))),
        decreases coordinates.len() - index,
    {
        let ghost before = script@;
        if index > 0 {
            script.append(",");
        }
        script.append(coordinates[index].as_str());
        index = index + 1;
        proof {
            let listed = texts(coordinates@.take(index as int));
            assert(listed.drop_last() =~= texts(coordinates@.take(index - 1)));
            assert(listed.last() == coordinates@[index - 1]@);
            assert(script@ =~= opening + joined(listed));
        }
    }
    assert(coordinates@.take(coordinates@.len() as int) =~= coordinates@);
    script.append("]);");
    script
}

/// Texts that were joined part again at the commas between them.
pub proof fn joined_texts_part_again(texts: Seq<Seq<char>>)
    requires
        texts.len() > 0,
        forall|i: int| 0 <= i < texts.len() ==> !(#[trigger] texts[i]).contains(','),
    ensures
        crate::text::parts(joined(texts), ',', 0) == texts,
    decreases texts.len(),
{
    reveal_strlit(",");
    assert(","@ =~= seq![',']);
    if texts.len() == 1 {
        assert(!texts[0].contains(','));
        crate::text::marks_part_texts(texts[0], ',', Seq::empty());
        assert(seq![texts[0]] =~= texts);
    } else {
        let earlier = texts.drop_last();
        assert forall|i: int| 0 <= i < earlier.len() implies !(#[trigger] earlier[i]).contains(
            ',',
        ) by {
            assert(earlier[i] == texts[i]);
        }
        joined_texts_part_again(earlier);
        let last = texts.last();
        assert(!texts[texts.len() - 1].contains(','));
        crate::text::marks_part_texts(joined(earlier), ',', last);
        crate::text::marks_part_texts(last, ',', Seq::empty());
        assert(earlier + seq![last] =~= texts);
    }
}

/// Small letters stay, capitals become the small letters of the same name, and anything
/// else stays; doing it twice is doing it once.
pub proof fn lowering_touches_capitals_alone(text: Seq<char>, i: int)
    requires
        0 <= i < text.len(),
    ensures
        lowered_text(text).len() == text.len(),
        'A' <= text[i] <= 'Z' ==> lowered_text(text)[i] as u32 - 'a' as u32 == text[i] as u32
            - 'A' as u32,
        !('A' <= text[i] <= 'Z') ==> lowered_text(text)[i] == text[i],
        lowered_text(lowered_text(text)) == lowered_text(text),
{
    assert(lowered_text(lowered_text(text)) =~= lowered_text(text));
}

} // verus!
