//! Wavefront OBJ: which lines count, how faces become triangles, and which
//! points of a model are drawn.
//!
//! Coordinates are read as numbers outside. What is read there comes back here
//! as one point, or none, for each vertex line.
use crate::text::{
    characters, decimal_round_trip, decimal_text, find, mark, mark_is_the_first,
    marks_part_texts, parts, push_decimal, read_signed, same_text, signed_value, spellings,
    text_of, words, words_from, written_numbers_are_read_back,
};
use crate::samples::{is_finite, is_number};
use vstd::prelude::*;

verus! {

/// Points and the triangles between them.
#[derive(Clone, Debug, Default, PartialEq)]
pub struct Mesh<P> {
    pub positions: Vec<P>,
    pub indices: Vec<u32>,
}

/// Why an OBJ file is refused.
#[derive(Clone, Copy, Debug, PartialEq, Eq, Structural)]
pub enum ObjError {
    InvalidVertex { line: usize },
    InvalidFace { line: usize },
    IndexOutOfRange { line: usize },
    TooManyVertices,
}

impl ObjError {
    /// The sentence for a log.
    pub open spec fn sentence(self) -> Seq<char> {
        match self {
            ObjError::InvalidVertex { line } => "invalid OBJ vertex at line "@ + decimal_text(
                line as nat,
            ),
            ObjError::InvalidFace { line } => "invalid OBJ face at line "@ + decimal_text(
                line as nat,
            ),
            ObjError::IndexOutOfRange { line } => "OBJ face index out of range at line "@
                + decimal_text(line as nat),
            ObjError::TooManyVertices => "OBJ has more vertices than u32 indices can address"@,
        }
    }

    /// The sentence for a log.
    pub fn message(&self) -> (message: String)
        ensures
            message@ == self.sentence(),
    {
        match self {
            ObjError::InvalidVertex { line } => {
                let mut message = String::from_str("invalid OBJ vertex at line ");
                push_decimal(&mut message, *line as u64);
                message
            },
            ObjError::InvalidFace { line } => {
                let mut message = String::from_str("invalid OBJ face at line ");
                push_decimal(&mut message, *line as u64);
                message
            },
            ObjError::IndexOutOfRange { line } => {
                let mut message = String::from_str("OBJ face index out of range at line ");
                push_decimal(&mut message, *line as u64);
                message
            },
            ObjError::TooManyVertices => String::from_str(
                "OBJ has more vertices than u32 indices can address",
            ),
        }
    }
}

/// A line that counts.
#[derive(Debug)]
pub enum ObjRecord {
    /// A vertex and the words that write its coordinates.
    Vertex { line: usize, coordinates: Vec<String> },
    /// A face and the words that name its corners.
    Face { line: usize, corners: Vec<String> },
}

/// What a line that counts says.
pub enum ObjItem {
    Vertex { line: usize, coordinates: Seq<Seq<char>> },
    Face { line: usize, corners: Seq<Option<i64>> },
}

impl ObjRecord {
    /// What the line says.
    pub open spec fn item(self) -> ObjItem {
        match self {
            ObjRecord::Vertex { line, coordinates } => ObjItem::Vertex {
                line,
                coordinates: crate::model::texts(coordinates@),
            },
            ObjRecord::Face { line, corners } => ObjItem::Face {
                line,
                corners: corner_values(crate::model::texts(corners@)),
            },
        }
    }
}

/// What the lines say.
pub open spec fn items(records: Seq<ObjRecord>) -> Seq<ObjItem> {
    Seq::new(records.len(), |i: int| records[i].item())
}

/// The number of a face's corner: what stands in front of the first slash.
/// Texture and normal slots behind it are ignored.
pub open spec fn corner_value(token: Seq<char>) -> Option<i64> {
    match signed_value(token.take(mark(token, '/', 0)), i64::MAX as nat) {
        Some(number) => Some(number as i64),
        None => None,
    }
}

/// The numbers of a face's corners, where they can be read.
pub open spec fn corner_values(tokens: Seq<Seq<char>>) -> Seq<Option<i64>> {
    Seq::new(tokens.len(), |i: int| corner_value(tokens[i]))
}

/// What a line says, if it counts: a `v` or `f` line.
pub open spec fn line_item(text: Seq<char>, line: usize) -> Option<ObjItem> {
    let listed = words_from(text, 0);
    if listed.len() == 0 {
        None
    } else if listed[0] == "v"@ {
        Some(ObjItem::Vertex { line, coordinates: listed.skip(1) })
    } else if listed[0] == "f"@ {
        Some(ObjItem::Face { line, corners: corner_values(listed.skip(1)) })
    } else {
        None
    }
}

/// What the first `count` lines of a file say.
pub open spec fn file_items(lines: Seq<Seq<char>>, count: int) -> Seq<ObjItem>
    decreases count,
{
    if count <= 0 {
        Seq::empty()
    } else {
        let earlier = file_items(lines, count - 1);
        match line_item(lines[count - 1], count as usize) {
            Some(item) => earlier.push(item),
            None => earlier,
        }
    }
}

/// The lines of a file that count, in order.
pub open spec fn obj_items(source: Seq<char>) -> Seq<ObjItem> {
    let lines = parts(source, '\n', 0);
    file_items(lines, lines.len() as int)
}

/// Reads the number of a face's corner.
fn read_corner(token: &[char]) -> (corner: Option<i64>)
    ensures
        corner == corner_value(token@),
{
    let end: usize = find(token, '/', 0);
    let digits = vstd::slice::slice_subrange(token, 0, end);
    assert(digits@ =~= token@.take(end as int));
    match read_signed(digits, 0x7fff_ffff_ffff_ffff) {
        Some(number) => Some(number as i64),
        None => None,
    }
}

/// Whether the characters spell the text.
fn spells(word: &[char], text: &str) -> (result: bool)
    ensures
        result == (word@ == text@),
{
    same_text(text_of(word).as_str(), text)
}

/// The words behind the first.
fn further_words(listed: &Vec<&[char]>) -> (further: Vec<String>)
    requires
        listed@.len() > 0,
    ensures
        crate::model::texts(further@) == spellings(listed@).skip(1),
{
    let ghost spelled = spellings(listed@);
    let mut further: Vec<String> = Vec::new();
    let mut index: usize = 1;
    while index < listed.len()
        invariant
            spelled == spellings(listed@),
            1 <= index <= listed@.len(),
            further@.len() == index - 1,
            forall|i: int|
                0 <= i < further@.len() ==> (#[trigger] further@[i])@ == spelled[i + 1],
        decreases listed@.len() - index,
    {
        further.push(text_of(listed[index]));
        index = index + 1;
    }
    assert(crate::model::texts(further@) =~= spelled.skip(1));
    further
}

/// Reads one line, if it counts.
fn read_line(text: &[char], line: usize) -> (record: Option<ObjRecord>)
    ensures
        match record {
            Some(record) => line_item(text@, line) == Some(record.item()),
            None => line_item(text@, line) is None,
        },
{
    let listed = words(text);
    let ghost spelled = words_from(text@, 0);
    assert(spelled.len() == listed@.len());
    if listed.len() == 0 {
        return None;
    }
    assert(spelled[0] == listed@[0]@);
    if spells(listed[0], "v") {
        let coordinates = further_words(&listed);
        Some(ObjRecord::Vertex { line, coordinates })
    } else if spells(listed[0], "f") {
        let corners = further_words(&listed);
        Some(ObjRecord::Face { line, corners })
    } else {
        None
    }
}

/// Reads the lines of a file that count: vertices with the words of their
/// coordinates, and faces with the words of their corners.
pub fn scan_obj(source: &str) -> (records: Vec<ObjRecord>)
    ensures
        items(records@) == obj_items(source@),
{
    let text = characters(source);
    let ghost lines = parts(source@, '\n', 0);
    let mut records: Vec<ObjRecord> = Vec::new();
    let mut count: usize = 0;
    let mut from: usize = 0;
    let mut more = true;
    assert(lines.skip(0) =~= lines);
    assert(items(records@) =~= Seq::<ObjItem>::empty());
    while more
        invariant
            text@ == source@,
            lines == parts(source@, '\n', 0),
            from <= text@.len(),
            count <= from,
            count <= lines.len(),
            more ==> lines.skip(count as int) == parts(source@, '\n', from as int),
            !more ==> count == lines.len() || (count + 1 == lines.len() && line_item(
                lines[count as int],
                (count + 1) as usize,
            ) is None),
            items(records@) == file_items(lines, count as int),
        decreases text@.len() - from + (if more { 1int } else { 0int }),
    {
        let end: usize = find(text.as_slice(), '\n', from);
        let ghost rest = parts(source@, '\n', from as int);
        assert(rest.len() > 0);
        assert(rest[0] == source@.subrange(from as int, end as int));
        assert(lines[count as int] == rest[0]);
        let line_text = vstd::slice::slice_subrange(text.as_slice(), from, end);
        if end == text.len() && from == end {
            // Nothing stands behind the last line end.
            assert(rest.len() == 1);
            assert(lines.skip(count as int).len() == 1);
            assert(words_from(line_text@, 0) =~= Seq::<Seq<char>>::empty());
            more = false;
        } else {
            let ghost before = items(records@);
            match read_line(line_text, count + 1) {
                Some(record) => {
                    let ghost item = record.item();
                    records.push(record);
                    assert(items(records@) =~= before.push(item));
                },
                None => {},
            }
            assert(lines.skip(count + 1) =~= rest.skip(1));
            count = count + 1;
            if end < text.len() {
                from = end + 1;
                assert(rest.skip(1) =~= parts(source@, '\n', from as int));
            } else {
                assert(rest.len() == 1);
                from = end;
                more = false;
            }
        }
    }
    records
}

/// The vertex that a corner names: counted from 1, or backwards from the last
/// vertex so far. Backwards, no more vertices count than a corner can number.
pub open spec fn corner_place(corner: i64, vertices: int) -> int {
    if corner > 0 {
        corner - 1
    } else if vertices <= i64::MAX {
        vertices + corner
    } else {
        i64::MAX + corner
    }
}

/// Why a corner of a face is refused.
pub open spec fn corner_problem(corner: Option<i64>, vertices: int, line: usize) -> Option<
    ObjError,
> {
    match corner {
        None => Some(ObjError::InvalidFace { line }),
        Some(corner) => if corner == 0 {
            Some(ObjError::InvalidFace { line })
        } else if 0 <= corner_place(corner, vertices) < vertices {
            None
        } else {
            Some(ObjError::IndexOutOfRange { line })
        },
    }
}

/// Why the corners of a face from one on are refused: the first problem.
pub open spec fn face_problem(
    corners: Seq<Option<i64>>,
    from: int,
    vertices: int,
    line: usize,
) -> Option<ObjError>
    decreases corners.len() - from,
{
    if from < 0 || from >= corners.len() {
        if corners.len() < 3 {
            Some(ObjError::InvalidFace { line })
        } else {
            None
        }
    } else {
        match corner_problem(corners[from], vertices, line) {
            Some(problem) => Some(problem),
            None => face_problem(corners, from + 1, vertices, line),
        }
    }
}

/// The first `count` triangles of a face: a fan around its first corner.
pub open spec fn fan(corners: Seq<Option<i64>>, vertices: int, count: nat) -> Seq<u32> {
    Seq::new(
        3 * count,
        |i: int|
            if i % 3 == 0 {
                corner_place(corners[0]->0, vertices) as u32
            } else if i % 3 == 1 {
                corner_place(corners[i / 3 + 1]->0, vertices) as u32
            } else {
                corner_place(corners[i / 3 + 2]->0, vertices) as u32
            },
    )
}

/// The mesh that the lines make, given the points that the vertex lines write:
/// the first problem, or the points and the triangles in order.
pub open spec fn assembled<P>(listed: Seq<ObjItem>, points: Seq<Option<P>>) -> Result<
    (Seq<P>, Seq<u32>),
    ObjError,
>
    decreases listed.len(),
{
    if listed.len() == 0 {
        Ok((Seq::empty(), Seq::empty()))
    } else {
        match assembled(listed.drop_last(), points) {
            Err(problem) => Err(problem),
            Ok((positions, indices)) => match listed.last() {
                ObjItem::Vertex { line, coordinates } => {
                    let place = positions.len() as int;
                    if coordinates.len() < 3 || place >= points.len() || points[place] is None {
                        Err(ObjError::InvalidVertex { line })
                    } else if place + 1 > u32::MAX {
                        Err(ObjError::TooManyVertices)
                    } else {
                        Ok((positions.push(points[place]->0), indices))
                    }
                },
                ObjItem::Face { line, corners } => match face_problem(
                    corners,
                    0,
                    positions.len() as int,
                    line,
                ) {
                    Some(problem) => Err(problem),
                    None => Ok(
                        (
                            positions,
                            indices + fan(
                                corners,
                                positions.len() as int,
                                (corners.len() - 2) as nat,
                            ),
                        ),
                    ),
                },
            },
        }
    }
}

/// A problem among the first lines is the problem of the file.
proof fn problem_stays<P>(listed: Seq<ObjItem>, points: Seq<Option<P>>, count: int)
    requires
        0 <= count <= listed.len(),
        assembled(listed.take(count), points) is Err,
    ensures
        assembled(listed, points) == assembled(listed.take(count), points),
    decreases listed.len() - count,
{
    if count < listed.len() {
        assert(listed.take(count + 1).drop_last() =~= listed.take(count));
        problem_stays(listed, points, count + 1);
    } else {
        assert(listed.take(count) =~= listed);
    }
}

/// Finds the vertex that a corner of a face names, among `vertex_count`.
pub fn face_index(token: &str, vertex_count: usize, line: usize) -> (result: Result<
    usize,
    ObjError,
>)
    ensures
        match result {
            Ok(place) => corner_problem(corner_value(token@), vertex_count as int, line) is None
                && place == corner_place(corner_value(token@)->0, vertex_count as int),
            Err(problem) => corner_problem(corner_value(token@), vertex_count as int, line) == Some(
                problem,
            ),
        },
{
    match read_corner(characters(token).as_slice()) {
        None => Err(ObjError::InvalidFace { line }),
        Some(corner) => {
            let place: i64 = if corner > 0 {
                corner - 1
            } else if corner < 0 {
                let countable: i64 = if vertex_count as u64 <= 0x7fff_ffff_ffff_ffff {
                    vertex_count as i64
                } else {
                    i64::MAX
                };
                countable + corner
            } else {
                return Err(ObjError::InvalidFace { line });
            };
            if 0 <= place && (place as u64) < vertex_count as u64 {
                Ok(place as usize)
            } else {
                Err(ObjError::IndexOutOfRange { line })
            }
        },
    }
}

/// Adds the triangles of one face.
fn add_face(
    indices: &mut Vec<u32>,
    corners: &Vec<String>,
    vertices: usize,
    line: usize,
) -> (result: Result<(), ObjError>)
    requires
        vertices <= u32::MAX,
    ensures
        ({
            let numbers = corner_values(crate::model::texts(corners@));
            match result {
                Ok(()) => {
                    &&& face_problem(numbers, 0, vertices as int, line) is None
                    &&& corners@.len() >= 3
                    &&& final(indices)@ == old(indices)@ + fan(
                        numbers,
                        vertices as int,
                        (corners@.len() - 2) as nat,
                    )
                },
                Err(problem) => face_problem(numbers, 0, vertices as int, line) == Some(problem),
            }
        }),
{
    let ghost numbers = corner_values(crate::model::texts(corners@));
    let mut places: Vec<u32> = Vec::new();
    let mut index: usize = 0;
    while index < corners.len()
        invariant
            vertices <= u32::MAX,
            numbers == corner_values(crate::model::texts(corners@)),
            index <= corners@.len(),
            places@.len() == index,
            face_problem(numbers, 0, vertices as int, line) == face_problem(
                numbers,
                index as int,
                vertices as int,
                line,
            ),
            forall|i: int|
                0 <= i < index ==> #[trigger] places@[i] == corner_place(
                    numbers[i]->0,
                    vertices as int,
                ),
        decreases corners@.len() - index,
    {
        assert(numbers[index as int] == corner_value(corners@[index as int]@));
        match face_index(corners[index].as_str(), vertices, line) {
            Ok(place) => {
                places.push(place as u32);
            },
            Err(problem) => {
                return Err(problem);
            },
        }
        index = index + 1;
    }
    if places.len() < 3 {
        return Err(ObjError::InvalidFace { line });
    }
    let ghost before = indices@;
    let mut count: usize = 0;
    assert(indices@ =~= before + fan(numbers, vertices as int, 0));
    while count < places.len() - 2
        invariant
            places@.len() == numbers.len(),
            places@.len() >= 3,
            count <= places@.len() - 2,
            forall|i: int|
                0 <= i < places@.len() ==> #[trigger] places@[i] == corner_place(
                    numbers[i]->0,
                    vertices as int,
                ),
            indices@ == before + fan(numbers, vertices as int, count as nat),
        decreases places@.len() - count,
    {
        indices.push(places[0]);
        indices.push(places[count + 1]);
        indices.push(places[count + 2]);
        count = count + 1;
        proof {
            let grown = fan(numbers, vertices as int, count as nat);
            let shorter = fan(numbers, vertices as int, (count - 1) as nat);
            let base = 3 * (count - 1);
            assert(base % 3 == 0 && (base + 1) % 3 == 1 && (base + 2) % 3 == 2);
            assert(base / 3 == count - 1 && (base + 1) / 3 == count - 1 && (base + 2) / 3 == count
                - 1);
            assert(places@[0] == grown[base]);
            assert(places@[count as int] == grown[base + 1]);
            assert(places@[count + 1] == grown[base + 2]);
            assert(indices@ =~= before + grown);
        }
    }
    Ok(())
}

/// Puts the mesh together from the lines that count and the points that their
/// coordinates write: one for each vertex line, in order, or none where its
/// first three words are no finite numbers.
pub fn load_obj<P: Copy>(records: &[ObjRecord], points: &[Option<P>]) -> (result: Result<
    Mesh<P>,
    ObjError,
>)
    ensures
        match result {
            Ok(mesh) => assembled(items(records@), points@) == Ok::<(Seq<P>, Seq<u32>), ObjError>(
                (mesh.positions@, mesh.indices@),
            ),
            Err(problem) => assembled(items(records@), points@) == Err::<
                (Seq<P>, Seq<u32>),
                ObjError,
            >(problem),
        },
{
    let ghost listed = items(records@);
    let mut positions: Vec<P> = Vec::new();
    let mut indices: Vec<u32> = Vec::new();
    let mut index: usize = 0;
    assert(listed.take(0) =~= Seq::<ObjItem>::empty());
    while index < records.len()
        invariant
            listed == items(records@),
            index <= records@.len(),
            positions@.len() <= u32::MAX,
            assembled(listed.take(index as int), points@) == Ok::<(Seq<P>, Seq<u32>), ObjError>(
                (positions@, indices@),
            ),
        decreases records@.len() - index,
    {
        proof {
            assert(listed.take(index + 1).drop_last() =~= listed.take(index as int));
            assert(listed.take(index + 1).last() == records@[index as int].item());
            if assembled(listed.take(index + 1), points@) is Err {
                problem_stays(listed, points@, index + 1);
            }
        }
        match &records[index] {
            ObjRecord::Vertex { line, coordinates } => {
                let place: usize = positions.len();
                if coordinates.len() < 3 || place >= points.len() {
                    return Err(ObjError::InvalidVertex { line: *line });
                }
                match points[place] {
                    Some(point) => {
                        if place == 0xffff_ffff {
                            return Err(ObjError::TooManyVertices);
                        }
                        positions.push(point);
                    },
                    None => {
                        return Err(ObjError::InvalidVertex { line: *line });
                    },
                }
            },
            ObjRecord::Face { line, corners } => {
                match add_face(&mut indices, corners, positions.len(), *line) {
                    Ok(()) => {},
                    Err(problem) => {
                        return Err(problem);
                    },
                }
            },
        }
        index = index + 1;
    }
    assert(listed.take(listed.len() as int) =~= listed);
    Ok(Mesh { positions, indices })
}

/// Every triangle of a mesh that was put together has three corners, and each
/// is one of its points.
pub proof fn triangles_are_in_range<P>(listed: Seq<ObjItem>, points: Seq<Option<P>>)
    requires
        assembled(listed, points) is Ok,
    ensures
        ({
            let (positions, indices) = assembled(listed, points)->Ok_0;
            &&& indices.len() % 3 == 0
            &&& positions.len() <= u32::MAX
            &&& forall|i: int| 0 <= i < indices.len() ==> #[trigger] indices[i] < positions.len()
        }),
    decreases listed.len(),
{
    if listed.len() > 0 {
        triangles_are_in_range(listed.drop_last(), points);
        let (earlier, before) = assembled(listed.drop_last(), points)->Ok_0;
        match listed.last() {
            ObjItem::Vertex { line, coordinates } => {},
            ObjItem::Face { line, corners } => {
                corners_in_range(corners, 0, earlier.len() as int, line);
                let count = (corners.len() - 2) as nat;
                let added = fan(corners, earlier.len() as int, count);
                assert forall|i: int| 0 <= i < added.len() implies #[trigger] added[i]
                    < earlier.len() by {
                    assert(0 <= i / 3 < count);
                    assert(corner_problem(corners[0], earlier.len() as int, line) is None);
                    assert(corner_problem(corners[i / 3 + 1], earlier.len() as int, line) is None);
                    assert(corner_problem(corners[i / 3 + 2], earlier.len() as int, line) is None);
                }
                let indices = before + added;
                assert forall|i: int| 0 <= i < indices.len() implies #[trigger] indices[i]
                    < earlier.len() by {
                    if i >= before.len() {
                        assert(indices[i] == added[i - before.len()]);
                    } else {
                        assert(indices[i] == before[i]);
                    }
                }
            },
        }
    }
}

/// A face without a problem has no corner with one.
proof fn corners_in_range(corners: Seq<Option<i64>>, from: int, vertices: int, line: usize)
    requires
        0 <= from <= corners.len(),
        face_problem(corners, from, vertices, line) is None,
    ensures
        corners.len() >= 3,
        forall|i: int|
            from <= i < corners.len() ==> corner_problem(
                #[trigger] corners[i],
                vertices,
                line,
            ) is None,
    decreases corners.len() - from,
{
    if from < corners.len() {
        corners_in_range(corners, from + 1, vertices, line);
    }
}

/// A line counts by its first word alone. It is a vertex exactly where that word is
/// the one letter `v`, a face exactly where it is the one letter `f`, and the words
/// behind it write the coordinates or name the corners.
pub proof fn lines_count_by_their_first_word(text: Seq<char>, line: usize)
    ensures
        ({
            let listed = words_from(text, 0);
            match line_item(text, line) {
                Some(ObjItem::Vertex { line: number, coordinates }) => {
                    &&& listed.len() > 0 && listed[0] == seq!['v']
                    &&& number == line
                    &&& listed == seq![listed[0]] + coordinates
                },
                Some(ObjItem::Face { line: number, corners }) => {
                    &&& listed.len() > 0 && listed[0] == seq!['f']
                    &&& number == line
                    &&& corners.len() == listed.len() - 1
                    &&& forall|i: int|
                        0 <= i < corners.len() ==> #[trigger] corners[i] == corner_value(
                            listed[i + 1],
                        )
                },
                None => listed.len() == 0 || (listed[0] != seq!['v'] && listed[0] != seq!['f']),
            }
        }),
{
    reveal_strlit("v");
    reveal_strlit("f");
    assert("v"@ =~= seq!['v']);
    assert("f"@ =~= seq!['f']);
    let listed = words_from(text, 0);
    assert(seq!['v'][0] != seq!['f'][0]);
    if listed.len() > 0 {
        assert(listed =~= seq![listed[0]] + listed.skip(1));
    }
}

/// Records of the first lines: each is that of its line, no line is left out that
/// counts, and they stand in the order of the lines.
proof fn first_records(lines: Seq<Seq<char>>, count: int)
    requires
        0 <= count <= lines.len() <= usize::MAX,
    ensures
        forall|i: int|
            0 <= i < file_items(lines, count).len() ==> {
                let item = #[trigger] file_items(lines, count)[i];
                1 <= item_line(item) <= count && line_item(
                    lines[item_line(item) - 1],
                    item_line(item) as usize,
                ) == Some(item)
            },
        forall|i: int, j: int|
            0 <= i < j < file_items(lines, count).len() ==> item_line(
                #[trigger] file_items(lines, count)[i],
            ) < item_line(#[trigger] file_items(lines, count)[j]),
        forall|n: int|
            1 <= n <= count && line_item(#[trigger] lines[n - 1], n as usize) is Some
                ==> file_items(lines, count).contains(line_item(lines[n - 1], n as usize)->0),
    decreases count,
{
    if count > 0 {
        first_records(lines, count - 1);
        let earlier = file_items(lines, count - 1);
        let listed = file_items(lines, count);
        match line_item(lines[count - 1], count as usize) {
            Some(item) => {
                lines_count_by_their_first_word(lines[count - 1], count as usize);
                assert(item_line(item) == count);
                assert(listed[listed.len() - 1] == item);
            },
            None => {},
        }
        assert forall|n: int|
            1 <= n <= count && line_item(#[trigger] lines[n - 1], n as usize) is Some implies listed.contains(
            line_item(lines[n - 1], n as usize)->0,
        ) by {
            let item = line_item(lines[n - 1], n as usize)->0;
            if n < count {
                assert(earlier.contains(item));
                let i = earlier.index_of(item);
                assert(listed[i] == item);
            }
        }
    }
}

/// The number of the line that an item comes from.
pub open spec fn item_line(item: ObjItem) -> int {
    match item {
        ObjItem::Vertex { line, .. } => line as int,
        ObjItem::Face { line, .. } => line as int,
    }
}

/// The records of a file are those of its lines, in their order, each with the number
/// of its line: vertices exactly for the lines that start with the word `v`, faces
/// exactly for those that start with the word `f`.
pub proof fn records_are_the_lines_that_count(source: Seq<char>)
    requires
        parts(source, '\n', 0).len() <= usize::MAX,
    ensures
        ({
            let lines = parts(source, '\n', 0);
            let listed = obj_items(source);
            &&& forall|i: int|
                0 <= i < listed.len() ==> match #[trigger] listed[i] {
                    ObjItem::Vertex { line, coordinates } => {
                        &&& 1 <= line <= lines.len()
                        &&& words_from(lines[line - 1], 0) == seq![seq!['v']] + coordinates
                    },
                    ObjItem::Face { line, corners } => {
                        &&& 1 <= line <= lines.len()
                        &&& words_from(lines[line - 1], 0).len() == corners.len() + 1
                        &&& words_from(lines[line - 1], 0)[0] == seq!['f']
                    },
                }
            &&& forall|i: int, j: int|
                0 <= i < j < listed.len() ==> item_line(#[trigger] listed[i]) < item_line(
                    #[trigger] listed[j],
                )
            &&& forall|n: int|
                1 <= n <= lines.len() && words_from(#[trigger] lines[n - 1], 0).len() > 0
                    && words_from(lines[n - 1], 0)[0] == seq!['v'] ==> exists|i: int|
                    0 <= i < listed.len() && #[trigger] listed[i] is Vertex && item_line(listed[i])
                        == n
            &&& forall|n: int|
                1 <= n <= lines.len() && words_from(#[trigger] lines[n - 1], 0).len() > 0
                    && words_from(lines[n - 1], 0)[0] == seq!['f'] ==> exists|i: int|
                    0 <= i < listed.len() && #[trigger] listed[i] is Face && item_line(listed[i])
                        == n
        }),
{
    let lines = parts(source, '\n', 0);
    let listed = obj_items(source);
    first_records(lines, lines.len() as int);
    assert forall|i: int| 0 <= i < listed.len() implies match #[trigger] listed[i] {
        ObjItem::Vertex { line, coordinates } => {
            &&& 1 <= line <= lines.len()
            &&& words_from(lines[line - 1], 0) == seq![seq!['v']] + coordinates
        },
        ObjItem::Face { line, corners } => {
            &&& 1 <= line <= lines.len()
            &&& words_from(lines[line - 1], 0).len() == corners.len() + 1
            &&& words_from(lines[line - 1], 0)[0] == seq!['f']
        },
    } by {
        let line = item_line(listed[i]);
        lines_count_by_their_first_word(lines[line - 1], line as usize);
    }
    assert forall|n: int|
        1 <= n <= lines.len() && words_from(#[trigger] lines[n - 1], 0).len() > 0 && words_from(
            lines[n - 1],
            0,
        )[0] == seq!['v'] implies exists|i: int|
        0 <= i < listed.len() && #[trigger] listed[i] is Vertex && item_line(listed[i]) == n by {
        lines_count_by_their_first_word(lines[n - 1], n as usize);
        assert(seq!['v'][0] != seq!['f'][0]);
        let item = line_item(lines[n - 1], n as usize)->0;
        let i = listed.index_of(item);
        assert(listed[i] == item);
    }
    assert forall|n: int|
        1 <= n <= lines.len() && words_from(#[trigger] lines[n - 1], 0).len() > 0 && words_from(
            lines[n - 1],
            0,
        )[0] == seq!['f'] implies exists|i: int|
        0 <= i < listed.len() && #[trigger] listed[i] is Face && item_line(listed[i]) == n by {
        lines_count_by_their_first_word(lines[n - 1], n as usize);
        assert(seq!['v'][0] != seq!['f'][0]);
        let item = line_item(lines[n - 1], n as usize)->0;
        let i = listed.index_of(item);
        assert(listed[i] == item);
    }
}

/// An item without the number of its line.
spec fn unnumbered(item: ObjItem) -> ObjItem {
    match item {
        ObjItem::Vertex { coordinates, .. } => ObjItem::Vertex { line: 0, coordinates },
        ObjItem::Face { corners, .. } => ObjItem::Face { line: 0, corners },
    }
}

/// The items of some lines, without the numbers of the lines.
spec fn plain_items(lines: Seq<Seq<char>>) -> Seq<ObjItem>
    decreases lines.len(),
{
    if lines.len() == 0 {
        Seq::empty()
    } else {
        let earlier = plain_items(lines.drop_last());
        match line_item(lines.last(), 0) {
            Some(item) => earlier.push(item),
            None => earlier,
        }
    }
}

proof fn plain_items_add(first: Seq<Seq<char>>, second: Seq<Seq<char>>)
    ensures
        plain_items(first + second) == plain_items(first) + plain_items(second),
    decreases second.len(),
{
    if second.len() == 0 {
        assert(first + second =~= first);
        assert(plain_items(first) + plain_items(second) =~= plain_items(first));
    } else {
        assert((first + second).drop_last() =~= first + second.drop_last());
        plain_items_add(first, second.drop_last());
        assert(plain_items(first + second) =~= plain_items(first) + plain_items(second));
    }
}

/// Numbers apart, the items of a file are those of its lines.
proof fn file_items_are_plain(lines: Seq<Seq<char>>, count: int)
    requires
        0 <= count <= lines.len(),
    ensures
        file_items(lines, count).len() == plain_items(lines.take(count)).len(),
        forall|i: int|
            0 <= i < file_items(lines, count).len() ==> unnumbered(
                #[trigger] file_items(lines, count)[i],
            ) == plain_items(lines.take(count))[i],
    decreases count,
{
    if count > 0 {
        file_items_are_plain(lines, count - 1);
        assert(lines.take(count).drop_last() =~= lines.take(count - 1));
        assert(lines.take(count).last() == lines[count - 1]);
    }
}

/// Whether two meshes, or two refusals, are alike but for the number of a line.
pub open spec fn alike<P>(
    one: Result<(Seq<P>, Seq<u32>), ObjError>,
    other: Result<(Seq<P>, Seq<u32>), ObjError>,
) -> bool {
    match (one, other) {
        (Ok(mesh), Ok(same)) => mesh == same,
        (Err(problem), Err(same)) => same_problem(problem, same),
        _ => false,
    }
}

/// Whether two refusals are alike but for the number of a line.
pub open spec fn same_problem(one: ObjError, other: ObjError) -> bool {
    match (one, other) {
        (ObjError::InvalidVertex { .. }, ObjError::InvalidVertex { .. }) => true,
        (ObjError::InvalidFace { .. }, ObjError::InvalidFace { .. }) => true,
        (ObjError::IndexOutOfRange { .. }, ObjError::IndexOutOfRange { .. }) => true,
        (ObjError::TooManyVertices, ObjError::TooManyVertices) => true,
        _ => false,
    }
}

/// Why a face is refused does not depend on where it stands.
proof fn face_problems_are_alike(
    corners: Seq<Option<i64>>,
    from: int,
    vertices: int,
    line: usize,
    other: usize,
)
    ensures
        match (face_problem(corners, from, vertices, line), face_problem(
            corners,
            from,
            vertices,
            other,
        )) {
            (None, None) => true,
            (Some(problem), Some(same)) => same_problem(problem, same),
            _ => false,
        },
    decreases corners.len() - from,
{
    if 0 <= from < corners.len() {
        face_problems_are_alike(corners, from + 1, vertices, line, other);
    }
}

/// Meshes of the same items are alike, wherever the items stand.
proof fn numbers_do_not_matter<P>(
    listed: Seq<ObjItem>,
    other: Seq<ObjItem>,
    points: Seq<Option<P>>,
)
    requires
        listed.len() == other.len(),
        forall|i: int|
            0 <= i < listed.len() ==> unnumbered(#[trigger] listed[i]) == unnumbered(other[i]),
    ensures
        alike(assembled(listed, points), assembled(other, points)),
    decreases listed.len(),
{
    if listed.len() > 0 {
        assert forall|i: int| 0 <= i < listed.drop_last().len() implies unnumbered(
            #[trigger] listed.drop_last()[i],
        ) == unnumbered(other.drop_last()[i]) by {
            assert(listed[i] == listed.drop_last()[i]);
        }
        numbers_do_not_matter(listed.drop_last(), other.drop_last(), points);
        assert(unnumbered(listed[listed.len() - 1]) == unnumbered(other[listed.len() - 1]));
        match (listed.last(), other.last(), assembled(listed.drop_last(), points)) {
            (
                ObjItem::Face { line, corners },
                ObjItem::Face { line: number, corners: same },
                Ok((positions, indices)),
            ) => {
                face_problems_are_alike(corners, 0, positions.len() as int, line, number);
            },
            _ => {},
        }
    }
}

/// A line that is no vertex and no face changes nothing. Put in between two lines, in
/// front of the first or behind the last, or taken out there, it leaves the points, the
/// triangles and any refusal as they are, but for the number of the line that a refusal
/// names.
pub proof fn other_lines_change_nothing<P>(
    before: Seq<char>,
    other: Seq<char>,
    after: Seq<char>,
    points: Seq<Option<P>>,
)
    requires
        !other.contains('\n'),
        words_from(other, 0).len() == 0 || (words_from(other, 0)[0] != seq!['v'] && words_from(
            other,
            0,
        )[0] != seq!['f']),
    ensures
        alike(
            assembled(obj_items(before + seq!['\n'] + other + seq!['\n'] + after), points),
            assembled(obj_items(before + seq!['\n'] + after), points),
        ),
        alike(
            assembled(obj_items(other + seq!['\n'] + after), points),
            assembled(obj_items(after), points),
        ),
        alike(
            assembled(obj_items(before + seq!['\n'] + other), points),
            assembled(obj_items(before), points),
        ),
{
    let a = parts(before, '\n', 0);
    let b = parts(after, '\n', 0);
    let none = Seq::<Seq<char>>::empty();
    marks_part_texts(before, '\n', after);
    marks_part_texts(before, '\n', other);
    marks_part_texts(other, '\n', after);
    marks_part_texts(before + seq!['\n'] + other, '\n', after);
    let one = before + seq!['\n'] + other + seq!['\n'] + after;
    let two = before + seq!['\n'] + after;
    assert(parts(one, '\n', 0) =~= a + seq![other] + b);
    same_without_the_line(one, two, a, other, b, points);
    assert(none + seq![other] + b =~= seq![other] + b);
    assert(none + b =~= b);
    same_without_the_line(other + seq!['\n'] + after, after, none, other, b, points);
    assert(a + seq![other] + none =~= a + seq![other]);
    assert(a + none =~= a);
    same_without_the_line(before + seq!['\n'] + other, before, a, other, none, points);
}

/// Texts whose lines are alike but for one that does not count make the same mesh.
proof fn same_without_the_line<P>(
    one: Seq<char>,
    two: Seq<char>,
    a: Seq<Seq<char>>,
    other: Seq<char>,
    b: Seq<Seq<char>>,
    points: Seq<Option<P>>,
)
    requires
        parts(one, '\n', 0) == a + seq![other] + b,
        parts(two, '\n', 0) == a + b,
        words_from(other, 0).len() == 0 || (words_from(other, 0)[0] != seq!['v'] && words_from(
            other,
            0,
        )[0] != seq!['f']),
    ensures
        alike(assembled(obj_items(one), points), assembled(obj_items(two), points)),
{
    let with = parts(one, '\n', 0);
    let without = parts(two, '\n', 0);
    plain_items_add(a, b);
    plain_items_add(a, seq![other]);
    plain_items_add(a + seq![other], b);
    lines_count_by_their_first_word(other, 0);
    assert(plain_items(seq![other]) =~= Seq::empty()) by {
        assert(seq![other].drop_last() =~= Seq::<Seq<char>>::empty());
        reveal_with_fuel(plain_items, 2);
    }
    assert(plain_items(with) =~= plain_items(without));
    file_items_are_plain(with, with.len() as int);
    file_items_are_plain(without, without.len() as int);
    assert(with.take(with.len() as int) =~= with);
    assert(without.take(without.len() as int) =~= without);
    let listed = obj_items(one);
    let same = obj_items(two);
    assert forall|i: int| 0 <= i < listed.len() implies unnumbered(#[trigger] listed[i])
        == unnumbered(same[i]) by {
        assert(unnumbered(listed[i]) == plain_items(with)[i]);
        assert(unnumbered(same[i]) == plain_items(without)[i]);
    }
    numbers_do_not_matter(listed, same, points);
}

/// A corner is the number in front of its first slash: written digits name a vertex
/// from the start, or from the end behind a minus sign, and whatever stands behind a
/// slash is ignored.
pub proof fn corners_are_numbers(number: nat, rest: Seq<char>)
    requires
        number <= i64::MAX,
    ensures
        corner_value(decimal_text(number)) == Some(number as i64),
        corner_value(seq!['-'] + decimal_text(number)) == Some((-number) as i64),
        corner_value(decimal_text(number) + seq!['/'] + rest) == Some(number as i64),
        corner_value(seq!['-'] + decimal_text(number) + seq!['/'] + rest) == Some((-number) as i64),
{
    let digits = decimal_text(number);
    let behind = seq!['-'] + digits;
    written_numbers_are_read_back(number, i64::MAX as nat);
    decimal_round_trip(number);
    slashes_are_ignored(digits, rest);
    assert forall|i: int| 0 <= i < behind.len() implies #[trigger] behind[i] != '/' by {
        if i > 0 {
            assert(behind[i] == digits[i - 1]);
            assert(crate::text::is_digit(digits[i - 1]));
        }
    }
    slashes_are_ignored(behind, rest);
}

/// What stands behind a slash is no part of the number.
proof fn slashes_are_ignored(number: Seq<char>, rest: Seq<char>)
    requires
        forall|i: int| 0 <= i < number.len() ==> #[trigger] number[i] != '/',
    ensures
        mark(number, '/', 0) == number.len(),
        number.take(mark(number, '/', 0)) == number,
        ({
            let token = number + seq!['/'] + rest;
            token.take(mark(token, '/', 0)) == number
        }),
{
    let token = number + seq!['/'] + rest;
    let end = number.len() as int;
    mark_is_the_first(number, '/', 0, end);
    assert(number.take(end) =~= number);
    assert forall|i: int| 0 <= i < end implies #[trigger] token[i] != '/' by {
        assert(token[i] == number[i]);
    }
    mark_is_the_first(token, '/', 0, end);
    assert(token.take(end) =~= number);
}

/// A vertex line adds its point behind the others and leaves the triangles alone. It
/// is refused where it has fewer than three coordinates or no point could be read.
pub proof fn vertices_add_points<P>(
    listed: Seq<ObjItem>,
    points: Seq<Option<P>>,
    line: usize,
    coordinates: Seq<Seq<char>>,
)
    requires
        assembled(listed, points) is Ok,
    ensures
        ({
            let (positions, indices) = assembled(listed, points)->Ok_0;
            let place = positions.len() as int;
            let grown = assembled(listed.push(ObjItem::Vertex { line, coordinates }), points);
            let readable = coordinates.len() >= 3 && place < points.len() && points[place] is Some;
            &&& readable && place < u32::MAX ==> grown == Ok::<(Seq<P>, Seq<u32>), ObjError>(
                (positions.push(points[place]->0), indices),
            )
            &&& readable && place >= u32::MAX ==> grown == Err::<(Seq<P>, Seq<u32>), ObjError>(
                ObjError::TooManyVertices,
            )
            &&& !readable ==> grown == Err::<(Seq<P>, Seq<u32>), ObjError>(
                ObjError::InvalidVertex { line },
            )
        }),
{
    let item = ObjItem::Vertex { line, coordinates };
    assert(listed.push(item).drop_last() =~= listed);
}

/// A face of three corners or more becomes a fan of triangles around its first corner,
/// behind the triangles so far: each triangle goes on from the edge at which the one
/// in front of it ended, and together they use every corner once in its turn. A corner
/// counts the vertices from one, or backwards from the last one so far. The points stay
/// as they are.
pub proof fn faces_become_fans<P>(
    listed: Seq<ObjItem>,
    points: Seq<Option<P>>,
    line: usize,
    corners: Seq<Option<i64>>,
)
    requires
        assembled(listed, points) is Ok,
    ensures
        ({
            let (positions, indices) = assembled(listed, points)->Ok_0;
            let vertices = positions.len() as int;
            let base = indices.len() as int;
            let named = |corner: Option<i64>|
                corner is Some && (0 < corner->0 <= vertices || -vertices <= corner->0 < 0);
            let place = |corner: Option<i64>|
                if corner->0 > 0 {
                    corner->0 - 1
                } else {
                    vertices + corner->0
                };
            match assembled(listed.push(ObjItem::Face { line, corners }), points) {
                Ok((same, grown)) => {
                    &&& corners.len() >= 3
                    &&& forall|i: int| 0 <= i < corners.len() ==> named(#[trigger] corners[i])
                    &&& same == positions
                    &&& grown.len() == base + 3 * (corners.len() - 2)
                    &&& grown.take(base) == indices
                    &&& forall|k: int|
                        #![trigger corners[k + 1]]
                        0 <= k < corners.len() - 2 ==> {
                            &&& grown[base + 3 * k] == place(corners[0])
                            &&& grown[base + 3 * k + 1] == place(corners[k + 1])
                            &&& grown[base + 3 * k + 2] == place(corners[k + 2])
                        }
                },
                Err(problem) => {
                    &&& corners.len() < 3 || exists|i: int|
                        0 <= i < corners.len() && !named(#[trigger] corners[i])
                    &&& problem == (ObjError::InvalidFace { line }) || problem == (
                    ObjError::IndexOutOfRange { line })
                },
            }
        }),
{
    let item = ObjItem::Face { line, corners };
    let (positions, indices) = assembled(listed, points)->Ok_0;
    let vertices = positions.len() as int;
    let base = indices.len() as int;
    triangles_are_in_range(listed, points);
    assert(listed.push(item).drop_last() =~= listed);
    match face_problem(corners, 0, vertices, line) {
        None => {
            corners_in_range(corners, 0, vertices, line);
            let added = fan(corners, vertices, (corners.len() - 2) as nat);
            let grown = indices + added;
            assert(grown.take(base) =~= indices);
            assert forall|k: int|
                #![trigger corners[k + 1]]
                0 <= k < corners.len() - 2 implies {
                &&& grown[base + 3 * k] == corner_place(corners[0]->0, vertices)
                &&& grown[base + 3 * k + 1] == corner_place(corners[k + 1]->0, vertices)
                &&& grown[base + 3 * k + 2] == corner_place(corners[k + 2]->0, vertices)
            } by {
                assert((3 * k) % 3 == 0 && (3 * k + 1) % 3 == 1 && (3 * k + 2) % 3 == 2);
                assert((3 * k + 1) / 3 == k && (3 * k + 2) / 3 == k);
                assert(grown[base + 3 * k] == added[3 * k]);
                assert(grown[base + 3 * k + 1] == added[3 * k + 1]);
                assert(grown[base + 3 * k + 2] == added[3 * k + 2]);
                assert(corner_problem(corners[0], vertices, line) is None);
                assert(corner_problem(corners[k + 1], vertices, line) is None);
                assert(corner_problem(corners[k + 2], vertices, line) is None);
            }
        },
        Some(problem) => {
            face_problem_has_a_corner(corners, 0, vertices, line);
        },
    }
}

/// A face with a problem has too few corners or a corner with one.
proof fn face_problem_has_a_corner(
    corners: Seq<Option<i64>>,
    from: int,
    vertices: int,
    line: usize,
)
    requires
        0 <= from <= corners.len(),
        face_problem(corners, from, vertices, line) is Some,
    ensures
        corners.len() < 3 || exists|i: int|
            from <= i < corners.len() && corner_problem(#[trigger] corners[i], vertices, line) is Some,
        face_problem(corners, from, vertices, line)->0 == (ObjError::InvalidFace { line })
            || face_problem(corners, from, vertices, line)->0 == (ObjError::IndexOutOfRange {
            line,
        }),
    decreases corners.len() - from,
{
    if from < corners.len() && corner_problem(corners[from], vertices, line) is None {
        face_problem_has_a_corner(corners, from + 1, vertices, line);
    }
}

/// A corner that is no number, or is zero, makes a face malformed; any other corner
/// that names no vertex is out of range. What is refused is the first such corner.
pub proof fn first_bad_corner_is_named<P>(
    listed: Seq<ObjItem>,
    points: Seq<Option<P>>,
    line: usize,
    corners: Seq<Option<i64>>,
    bad: int,
)
    requires
        assembled(listed, points) is Ok,
        0 <= bad < corners.len(),
        ({
            let vertices = (assembled(listed, points)->Ok_0).0.len() as int;
            &&& forall|i: int|
                0 <= i < bad ==> (#[trigger] corners[i] is Some && (0 < corners[i]->0 <= vertices
                    || -vertices <= corners[i]->0 < 0))
            &&& !(corners[bad] is Some && (0 < corners[bad]->0 <= vertices || -vertices
                <= corners[bad]->0 < 0))
        }),
    ensures
        assembled(listed.push(ObjItem::Face { line, corners }), points) == Err::<
            (Seq<P>, Seq<u32>),
            ObjError,
        >(
            if corners[bad] is None || corners[bad]->0 == 0 {
                ObjError::InvalidFace { line }
            } else {
                ObjError::IndexOutOfRange { line }
            },
        ),
{
    let item = ObjItem::Face { line, corners };
    assert(listed.push(item).drop_last() =~= listed);
    triangles_are_in_range(listed, points);
    bad_corner_is_the_problem(
        corners,
        0,
        (assembled(listed, points)->Ok_0).0.len() as int,
        line,
        bad,
    );
}

proof fn bad_corner_is_the_problem(
    corners: Seq<Option<i64>>,
    from: int,
    vertices: int,
    line: usize,
    bad: int,
)
    requires
        0 <= from <= bad < corners.len(),
        forall|i: int|
            from <= i < bad ==> corner_problem(#[trigger] corners[i], vertices, line) is None,
        corner_problem(corners[bad], vertices, line) is Some,
    ensures
        face_problem(corners, from, vertices, line) == corner_problem(
            corners[bad],
            vertices,
            line,
        ),
    decreases bad - from,
{
    if from < bad {
        assert(corner_problem(corners[from], vertices, line) is None);
        bad_corner_is_the_problem(corners, from + 1, vertices, line, bad);
    }
}

/// The drawn points are the first one and from there on every one at the same
/// distance, up to the end; the distance is the smallest with which the budget is kept.
pub proof fn samples_are_evenly_apart<P>(points: Seq<P>, budget: int) -> (stride: int)
    requires
        points.len() > 0,
        budget > 0,
    ensures
        stride >= 1,
        stride * budget >= points.len(),
        (stride - 1) * budget < points.len(),
        sampled(points, budget).len() * stride >= points.len(),
        (sampled(points, budget).len() - 1) * stride < points.len(),
        forall|i: int|
            0 <= i < sampled(points, budget).len() ==> #[trigger] sampled(points, budget)[i]
                == points[i * stride],
{
    let count = points.len() as int;
    let stride = stride_for(count, budget);
    stride_bounds(count, budget);
    stride_bounds(count, stride);
    stride
}

/// How many points lie between two that are drawn.
pub open spec fn stride_for(count: int, budget: int) -> int {
    (count + budget - 1) / budget
}

/// The points that are drawn: the first, and from there on every one at the
/// same distance, so that no more than the budget are drawn.
pub open spec fn sampled<P>(points: Seq<P>, budget: int) -> Seq<P> {
    if budget == 0 || points.len() == 0 {
        Seq::empty()
    } else {
        let stride = stride_for(points.len() as int, budget);
        Seq::new(
            stride_for(points.len() as int, stride) as nat,
            |i: int| points[i * stride],
        )
    }
}

/// Every point that is drawn is one of the model's, and there are no more than
/// the budget. A model within the budget is drawn whole.
pub proof fn samples_keep_the_budget<P>(points: Seq<P>, budget: int)
    requires
        budget >= 0,
    ensures
        sampled(points, budget).len() <= budget,
        points.len() > 0 && budget > 0 ==> {
            let stride = stride_for(points.len() as int, budget);
            &&& stride >= 1
            &&& sampled(points, budget).len() >= 1
            &&& forall|i: int|
                0 <= i < sampled(points, budget).len() ==> 0 <= #[trigger] (i * stride)
                    < points.len()
            &&& sampled(points, budget).len() * stride >= points.len()
        },
        points.len() <= budget ==> sampled(points, budget) == points,
{
    if points.len() > 0 && budget > 0 {
        let count = points.len() as int;
        let stride = stride_for(count, budget);
        let amount = stride_for(count, stride);
        stride_bounds(count, budget);
        stride_bounds(count, stride);
        assert(amount <= budget) by (nonlinear_arith)
            requires
                stride * budget >= count,
                (amount - 1) * stride < count,
                stride >= 1,
        ;
        assert forall|i: int| 0 <= i < amount implies 0 <= #[trigger] (i * stride) < count by {
            assert(0 <= i * stride <= (amount - 1) * stride) by (nonlinear_arith)
                requires
                    0 <= i <= amount - 1,
                    stride >= 1,
            ;
        }
        assert(sampled(points, budget).len() * stride >= points.len());
        if count <= budget {
            if stride >= 2 {
                assert((stride - 1) * budget >= budget) by (nonlinear_arith)
                    requires
                        stride - 1 >= 1,
                        budget >= 0,
                ;
            }
            assert(stride == 1);
            vstd::arithmetic::div_mod::lemma_div_basics(count);
            assert(stride_for(count, 1) == count);
            assert(sampled(points, budget) =~= points);
        }
    } else {
        assert(points.len() <= budget ==> sampled(points, budget) =~= points);
    }
}

/// Rounding up reaches the count, and one less does not.
proof fn stride_bounds(count: int, divisor: int)
    requires
        count >= 1,
        divisor >= 1,
    ensures
        stride_for(count, divisor) >= 1,
        stride_for(count, divisor) * divisor >= count,
        (stride_for(count, divisor) - 1) * divisor < count,
{
    let quotient = (count + divisor - 1) / divisor;
    let rest = (count + divisor - 1) % divisor;
    vstd::arithmetic::div_mod::lemma_fundamental_div_mod(count + divisor - 1, divisor);
    assert(divisor * quotient + rest == count + divisor - 1);
    assert(quotient * divisor == divisor * quotient) by (nonlinear_arith);
    assert((quotient - 1) * divisor == quotient * divisor - divisor) by (nonlinear_arith);
    assert(quotient >= 1) by (nonlinear_arith)
        requires
            quotient * divisor >= count,
            count >= 1,
            divisor >= 1,
    ;
}

/// Whether all three coordinates are numbers.
pub open spec fn is_finite_point(point: [u32; 3]) -> bool {
    is_number(point@[0]) && is_number(point@[1]) && is_number(point@[2])
}

/// The points of which every coordinate is a number, in their order. Others are
/// dropped rather than clamped: bounds taken over one of them would look finite
/// while it sails through to the renderer.
pub fn finite_points(points: &[[u32; 3]]) -> (kept: Vec<[u32; 3]>)
    ensures
        kept@ == points@.filter(|point: [u32; 3]| is_finite_point(point)),
{
    let ghost finite = |point: [u32; 3]| is_finite_point(point);
    let mut kept: Vec<[u32; 3]> = Vec::new();
    let mut index: usize = 0;
    proof {
        reveal(Seq::filter);
        assert(points@.take(0).filter(finite) =~= Seq::empty());
    }
    while index < points.len()
        invariant
            index <= points@.len(),
            finite == (|point: [u32; 3]| is_finite_point(point)),
            kept@ == points@.take(index as int).filter(finite),
        decreases points@.len() - index,
    {
        let point: [u32; 3] = points[index];
        proof {
            reveal(Seq::filter);
            assert(points@.take(index + 1).drop_last() =~= points@.take(index as int));
        }
        if is_finite(point[0]) && is_finite(point[1]) && is_finite(point[2]) {
            kept.push(point);
        }
        index = index + 1;
    }
    assert(points@.take(index as int) =~= points@);
    kept
}

/// Picks the points that are drawn, no more than the budget.
pub fn sample_points<P: Copy>(points: &[P], budget: usize) -> (cloud: Vec<P>)
    ensures
        cloud@ == sampled(points@, budget as int),
        cloud@.len() <= budget,
{
    proof {
        samples_keep_the_budget(points@, budget as int);
    }
    let mut cloud: Vec<P> = Vec::new();
    if budget == 0 || points.len() == 0 {
        assert(cloud@ =~= sampled(points@, budget as int));
        return cloud;
    }
    let count: usize = points.len();
    let stride: usize = (count - 1) / budget + 1;
    proof {
        let wide = (count - 1) as int;
        let divisor = budget as int;
        assert((wide + divisor) / divisor == wide / divisor + 1) by {
            vstd::arithmetic::div_mod::lemma_div_plus_one(wide, divisor);
        }
        assert(stride == stride_for(count as int, budget as int));
        assert(0 * stride == 0);
    }
    let ghost amount = sampled(points@, budget as int).len();
    let mut place: usize = 0;
    let mut more = true;
    while more
        invariant
            count == points@.len(),
            count >= 1,
            stride >= 1,
            budget >= 1,
            stride == stride_for(count as int, budget as int),
            amount == sampled(points@, budget as int).len(),
            amount == stride_for(count as int, stride as int),
            amount >= 1,
            amount * stride >= count,
            forall|i: int| 0 <= i < amount ==> 0 <= #[trigger] (i * stride) < count,
            cloud@.len() <= amount,
            more ==> cloud@.len() < amount && place == cloud@.len() * stride && place < count,
            !more ==> cloud@.len() == amount,
            forall|i: int|
                0 <= i < cloud@.len() ==> #[trigger] cloud@[i] == points@[i * stride],
        decreases amount - cloud@.len() + (if more { 1int } else { 0int }),
    {
        let ghost done = cloud@.len() as int;
        cloud.push(points[place]);
        assert((done + 1) * stride == done * stride + stride) by (nonlinear_arith);
        if stride >= count - place {
            proof {
                stride_bounds(count as int, stride as int);
                if done + 1 < amount {
                    assert(0 <= (done + 1) * stride < count);
                }
            }
            more = false;
        } else {
            place = place + stride;
            proof {
                if done + 1 >= amount {
                    assert((done + 1) * stride >= amount * stride) by (nonlinear_arith)
                        requires
                            done + 1 >= amount,
                            stride >= 1,
                    ;
                }
            }
        }
    }
    assert(cloud@ =~= sampled(points@, budget as int));
    cloud
}

/// A point can be drawn exactly where each of its three coordinates is a number.
pub proof fn points_are_finite_in_every_coordinate(point: [u32; 3])
    ensures
        is_finite_point(point) <==> point@[0] as int % 0x8000_0000 < 0x7f80_0000 && point@[1] as int
            % 0x8000_0000 < 0x7f80_0000 && point@[2] as int % 0x8000_0000 < 0x7f80_0000,
{
    crate::samples::numbers_lie_below_infinity(point@[0]);
    crate::samples::numbers_lie_below_infinity(point@[1]);
    crate::samples::numbers_lie_below_infinity(point@[2]);
}

} // verus!
