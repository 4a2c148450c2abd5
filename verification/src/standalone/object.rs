//! The objects that the instrument takes in: which files, and how much of them.
use crate::model::{ascii_lowercase, lowered_text};
use crate::text::{decimal_text, push_decimal, same_text};
use vstd::prelude::*;

verus! {

/// The most points of an object that are drawn.
pub const MAX_OBJECT_POINTS: usize = 8_192;

/// The largest file, and the most buffer bytes, that an object may have.
pub const MAX_OBJECT_BYTES: u64 = 16_777_216;

/// How an object is read.
#[derive(Clone, Copy, Debug, PartialEq, Eq, Structural)]
pub enum ObjectFormat {
    Obj,
    Gltf,
}

/// Why an object is refused.
#[derive(Clone, Copy, Debug, PartialEq, Eq, Structural)]
pub enum ObjectError {
    /// The file is larger than the limit.
    FileTooLarge { bytes: u64 },
    /// The extension is none of those that are read.
    UnknownFormat,
    /// The buffers' sizes cannot be added up.
    SizeOverflow,
    /// The buffers together are larger than the limit.
    BuffersTooLarge { bytes: u64 },
    /// There is nothing to draw.
    NoVertices,
}

impl ObjectError {
    /// The sentence for the terminal.
    pub open spec fn sentence(self) -> Seq<char> {
        match self {
            ObjectError::FileTooLarge { bytes } => "object is "@ + decimal_text(bytes as nat)
                + " bytes; Neta object limit is "@ + decimal_text(MAX_OBJECT_BYTES as nat),
            ObjectError::UnknownFormat => "supported object formats: .obj, .gltf, .glb"@,
            ObjectError::SizeOverflow => "glTF buffer size overflows Neta import limit"@,
            ObjectError::BuffersTooLarge { bytes } => "glTF declares "@ + decimal_text(
                bytes as nat,
            ) + " bytes; Neta object limit is "@ + decimal_text(MAX_OBJECT_BYTES as nat),
            ObjectError::NoVertices => "object contains no POSITION vertices"@,
        }
    }

    /// The sentence for the terminal.
    pub fn message(&self) -> (message: String)
        ensures
            message@ == self.sentence(),
    {
        match self {
            ObjectError::FileTooLarge { bytes } => {
                let mut message = String::from_str("object is ");
                push_decimal(&mut message, *bytes);
                message.append(" bytes; Neta object limit is ");
                push_decimal(&mut message, MAX_OBJECT_BYTES);
                message
            },
            ObjectError::UnknownFormat => String::from_str(
                "supported object formats: .obj, .gltf, .glb",
            ),
            ObjectError::SizeOverflow => String::from_str(
                "glTF buffer size overflows Neta import limit",
            ),
            ObjectError::BuffersTooLarge { bytes } => {
                let mut message = String::from_str("glTF declares ");
                push_decimal(&mut message, *bytes);
                message.append(" bytes; Neta object limit is ");
                push_decimal(&mut message, MAX_OBJECT_BYTES);
                message
            },
            ObjectError::NoVertices => String::from_str("object contains no POSITION vertices"),
        }
    }
}

/// Checks the size of a file before it is read.
pub fn ensure_file_size(bytes: u64) -> (result: Result<(), ObjectError>)
    ensures
        result == (if bytes > MAX_OBJECT_BYTES {
            Err::<(), ObjectError>(ObjectError::FileTooLarge { bytes })
        } else {
            Ok(())
        }),
{
    if bytes > MAX_OBJECT_BYTES {
        Err(ObjectError::FileTooLarge { bytes })
    } else {
        Ok(())
    }
}

/// How a file with an extension is read, if it is.
pub open spec fn format_of(extension: Seq<char>) -> Option<ObjectFormat> {
    let name = lowered_text(extension);
    if name == "obj"@ {
        Some(ObjectFormat::Obj)
    } else if name == "gltf"@ || name == "glb"@ {
        Some(ObjectFormat::Gltf)
    } else {
        None
    }
}

/// Three extensions are read, in small letters or capitals, and no other is.
pub proof fn three_extensions_are_read(extension: Seq<char>)
    ensures
        format_of("obj"@) == Some(ObjectFormat::Obj),
        format_of("gltf"@) == Some(ObjectFormat::Gltf),
        format_of("glb"@) == Some(ObjectFormat::Gltf),
        format_of(lowered_text(extension)) == format_of(extension),
        format_of(extension) is Some ==> lowered_text(extension) == "obj"@ || lowered_text(extension)
            == "gltf"@ || lowered_text(extension) == "glb"@,
{
    reveal_strlit("obj");
    reveal_strlit("gltf");
    reveal_strlit("glb");
    assert(lowered_text("obj"@) =~= "obj"@);
    assert(lowered_text("gltf"@) =~= "gltf"@);
    assert(lowered_text("glb"@) =~= "glb"@);
    assert("obj"@[0] != "glb"@[0]);
    assert("obj"@[0] != "gltf"@[0]);
    assert(lowered_text(lowered_text(extension)) =~= lowered_text(extension));
}

/// How a file with an extension is read. Case makes no difference; a file
/// without an extension is not read.
pub fn object_format(extension: Option<&str>) -> (result: Result<ObjectFormat, ObjectError>)
    ensures
        match extension {
            None => result is Err,
            Some(extension) => match format_of(extension@) {
                Some(format) => result == Ok::<ObjectFormat, ObjectError>(format),
                None => result is Err,
            },
        },
        result == (match extension {
            None => Err::<ObjectFormat, ObjectError>(ObjectError::UnknownFormat),
            Some(extension) => {
                let name = lowered_text(extension@);
                if name == "obj"@ {
                    Ok(ObjectFormat::Obj)
                } else if name == "gltf"@ || name == "glb"@ {
                    Ok(ObjectFormat::Gltf)
                } else {
                    Err(ObjectError::UnknownFormat)
                }
            },
        }),
{
    let extension: &str = match extension {
        Some(extension) => extension,
        None => {
            return Err(ObjectError::UnknownFormat);
        },
    };
    let name = ascii_lowercase(extension);
    if same_text(name.as_str(), "obj") {
        Ok(ObjectFormat::Obj)
    } else if same_text(name.as_str(), "gltf") || same_text(name.as_str(), "glb") {
        Ok(ObjectFormat::Gltf)
    } else {
        Err(ObjectError::UnknownFormat)
    }
}

/// The sum of sizes.
pub open spec fn total_bytes(sizes: Seq<u64>) -> int
    decreases sizes.len(),
{
    if sizes.len() == 0 {
        0
    } else {
        total_bytes(sizes.drop_last()) + sizes.last()
    }
}

/// More sizes add up to no less.
proof fn total_grows(sizes: Seq<u64>, count: int)
    requires
        0 <= count <= sizes.len(),
    ensures
        0 <= total_bytes(sizes.take(count)) <= total_bytes(sizes),
    decreases sizes.len(),
{
    if count < sizes.len() {
        total_grows(sizes.drop_last(), count);
        assert(sizes.drop_last().take(count) =~= sizes.take(count));
    } else {
        assert(sizes.take(count) =~= sizes);
        if sizes.len() > 0 {
            total_grows(sizes.drop_last(), sizes.len() - 1);
            assert(sizes.drop_last().take(sizes.len() - 1) =~= sizes.drop_last());
        }
    }
}

/// Checks what the buffers of an object declare before they are read.
pub fn check_buffers(sizes: &[u64]) -> (result: Result<(), ObjectError>)
    ensures
        result == (if total_bytes(sizes@) > u64::MAX {
            Err::<(), ObjectError>(ObjectError::SizeOverflow)
        } else if total_bytes(sizes@) > MAX_OBJECT_BYTES {
            Err(ObjectError::BuffersTooLarge { bytes: total_bytes(sizes@) as u64 })
        } else {
            Ok(())
        }),
{
    let mut total: u64 = 0;
    let mut index: usize = 0;
    while index < sizes.len()
        invariant
            index <= sizes@.len(),
            total == total_bytes(sizes@.take(index as int)),
        decreases sizes@.len() - index,
    {
        proof {
            total_grows(sizes@, index + 1);
            assert(sizes@.take(index + 1).drop_last() =~= sizes@.take(index as int));
        }
        total = match total.checked_add(sizes[index]) {
            Some(total) => total,
            None => {
                return Err(ObjectError::SizeOverflow);
            },
        };
        index = index + 1;
    }
    assert(sizes@.take(index as int) =~= sizes@);
    if total > MAX_OBJECT_BYTES {
        Err(ObjectError::BuffersTooLarge { bytes: total })
    } else {
        Ok(())
    }
}

/// The points of an object that are drawn: the first ones, up to the limit. An
/// object without points is refused.
pub fn take_points<P: Copy>(points: &[P]) -> (result: Result<Vec<P>, ObjectError>)
    ensures
        match result {
            Ok(taken) => points@.len() > 0 && taken@ == (if points@.len() <= MAX_OBJECT_POINTS {
                points@
            } else {
                points@.take(MAX_OBJECT_POINTS as int)
            }),
            Err(problem) => points@.len() == 0 && problem == ObjectError::NoVertices,
        },
{
    if points.len() == 0 {
        return Err(ObjectError::NoVertices);
    }
    let count: usize = if points.len() < MAX_OBJECT_POINTS {
        points.len()
    } else {
        MAX_OBJECT_POINTS
    };
    let mut taken: Vec<P> = Vec::with_capacity(count);
    while taken.len() < count
        invariant
            taken@.len() <= count <= points@.len(),
            taken@ == points@.take(taken@.len() as int),
        decreases count - taken@.len(),
    {
        let next = points[taken.len()];
        assert(points@.take(taken@.len() as int + 1) =~= points@.take(taken@.len() as int).push(next));
        taken.push(next);
    }
    assert(points@.take(points@.len() as int) =~= points@);
    Ok(taken)
}

/// Whether more points of an object are taken.
pub fn has_point_room(taken: usize) -> (room: bool)
    ensures
        room == (taken < MAX_OBJECT_POINTS),
{
    taken < MAX_OBJECT_POINTS
}

} // verus!
