//! The staged instances of a frame: four corners and a colour each.
use crate::samples::{is_finite, is_number};
use crate::visual::spacing::{bounded_index, drawn, spaced};
use vstd::prelude::*;

verus! {

/// Numbers in one instance: four corners of two, and a colour of four.
pub const INSTANCE_WORDS: usize = 12;

/// How many instances fit where nothing else is asked: a full scope with its
/// waterfall and a whole point cloud.
pub const DEFAULT_MAX_PRIMITIVES: usize = 20_000;

/// Bytes in one instance.
pub const INSTANCE_BYTES: u64 = 48;

/// Where an attribute of the shader stands in an instance, and how many numbers
/// it has: the four corners, then the colour.
pub open spec fn attribute(location: int) -> (int, int) {
    if location < 4 {
        (8 * location, 2)
    } else {
        (32, 4)
    }
}

/// The byte at which an attribute of the shader begins in an instance.
pub fn attribute_offset(location: u32) -> (offset: u64)
    requires
        location < 5,
    ensures
        offset == attribute(location as int).0,
{
    if location < 4 {
        8 * (location as u64)
    } else {
        32
    }
}

/// The attributes lie side by side and fill the instance: each begins where the
/// one before ends.
pub proof fn attributes_fill_the_instance(location: int)
    requires
        0 <= location < 5,
    ensures
        attribute(0).0 == 0,
        attribute(location).0 + 4 * attribute(location).1 == (if location < 4 {
            attribute(location + 1).0
        } else {
            INSTANCE_BYTES as int
        }),
        INSTANCE_BYTES == 4 * INSTANCE_WORDS,
{
}

/// The numbers of an instance.
pub open spec fn instance_words(corners: Seq<u32>, color: Seq<u32>) -> Seq<u32> {
    corners + color
}

/// Whether every number of a row is one.
pub open spec fn all_numbers(words: Seq<u32>) -> bool {
    forall|i: int| 0 <= i < words.len() ==> is_number(#[trigger] words[i])
}

/// Which points of a cloud are drawn.
#[derive(Clone, Copy, Debug, PartialEq, Eq)]
pub struct CloudPlan {
    /// How many points the cloud has.
    pub points: usize,
    /// How many of them are drawn.
    pub drawn: usize,
}

impl CloudPlan {
    /// The point of the cloud that is drawn at a place: an even sample across
    /// the cloud rather than only its earliest points.
    pub fn source(&self, index: usize) -> (source: usize)
        requires
            index < self.drawn <= self.points,
        ensures
            source == spaced(index as int, self.drawn as int, self.points as int),
            source < self.points,
    {
        bounded_index(index, self.drawn, self.points)
    }
}

/// Staging memory that is allocated once and reused for each frame.
#[derive(Debug)]
pub struct Staging {
    words: Vec<u32>,
    max_primitives: usize,
}

impl Staging {
    /// Whether whole instances are staged, no more than fit, and every number of
    /// them is one.
    pub closed spec fn is_valid(self) -> bool {
        &&& 0 < self.max_primitives
        &&& self.words@.len() % 12 == 0
        &&& self.words@.len() / 12 <= self.max_primitives
        &&& all_numbers(self.words@)
    }

    /// The staged numbers, instance after instance.
    pub closed spec fn view(&self) -> Seq<u32> {
        self.words@
    }

    /// How many instances fit.
    pub closed spec fn limit(self) -> int {
        self.max_primitives as int
    }

    /// How many instances are staged.
    pub open spec fn staged(self) -> int {
        self@.len() as int / 12
    }

    /// Staging never overflows, and nothing that is no number reaches the GPU.
    pub proof fn holds_only_whole_numbers_of_instances(self)
        requires
            self.is_valid(),
        ensures
            self@.len() == 12 * self.staged(),
            self.staged() <= self.limit(),
            all_numbers(self@),
    {
    }

    /// Staging for so many instances, at least one.
    pub fn with_capacity(max_primitives: usize) -> (staging: Self)
        ensures
            staging.is_valid(),
            staging@ == Seq::<u32>::empty(),
            staging.limit() == (if max_primitives == 0 {
                1
            } else {
                max_primitives as int
            }),
    {
        let max_primitives: usize = if max_primitives == 0 {
            1
        } else {
            max_primitives
        };
        let words: Vec<u32> = match max_primitives.checked_mul(INSTANCE_WORDS) {
            Some(room) => Vec::with_capacity(room),
            None => Vec::new(),
        };
        Staging { words, max_primitives }
    }

    /// How many instances fit.
    pub fn capacity(&self) -> (limit: usize)
        ensures
            limit == self.limit(),
    {
        self.max_primitives
    }

    /// How many instances are staged.
    pub fn primitives(&self) -> (count: usize)
        requires
            self.is_valid(),
        ensures
            count == self.staged(),
            count <= self.limit(),
    {
        self.words.len() / INSTANCE_WORDS
    }

    /// The staged numbers.
    pub fn words(&self) -> (words: &[u32])
        ensures
            words@ == self@,
    {
        self.words.as_slice()
    }

    /// Starts a frame.
    pub fn clear(&mut self)
        requires
            old(self).is_valid(),
        ensures
            final(self).is_valid(),
            final(self)@ == Seq::<u32>::empty(),
            final(self).limit() == old(self).limit(),
    {
        self.words.clear();
    }

    /// Stages an instance. One that does not fit, and one with a corner or a
    /// colour that is no number, is left out.
    pub fn push_polygon(&mut self, corners: &[u32; 8], color: &[u32; 4]) -> (taken: bool)
        requires
            old(self).is_valid(),
        ensures
            final(self).is_valid(),
            final(self).limit() == old(self).limit(),
            taken == (old(self).staged() < old(self).limit() && all_numbers(corners@)
                && all_numbers(color@)),
            final(self)@ == (if taken {
                old(self)@ + instance_words(corners@, color@)
            } else {
                old(self)@
            }),
    {
        let ghost before = self.words@;
        if self.words.len() / INSTANCE_WORDS >= self.max_primitives {
            return false;
        }
        if !valid_words(corners) || !valid_words(color) {
            return false;
        }
        let mut index: usize = 0;
        while index < 8
            invariant
                index <= 8,
                self.max_primitives == old(self).max_primitives,
                self.words@ == before + corners@.take(index as int),
            decreases 8 - index,
        {
            self.words.push(corners[index]);
            assert(corners@.take(index + 1) =~= corners@.take(index as int).push(
                corners@[index as int],
            ));
            index = index + 1;
        }
        assert(corners@.take(8) =~= corners@);
        let ghost middle = self.words@;
        let mut index: usize = 0;
        assert(self.words@ =~= middle + color@.take(0));
        while index < 4
            invariant
                index <= 4,
                self.max_primitives == old(self).max_primitives,
                self.words@ == middle + color@.take(index as int),
            decreases 4 - index,
        {
            self.words.push(color[index]);
            assert(color@.take(index + 1) =~= color@.take(index as int).push(
                color@[index as int],
            ));
            index = index + 1;
        }
        assert(color@.take(4) =~= color@);
        assert(self.words@ =~= before + instance_words(corners@, color@));
        true
    }

    /// Points that are drawn of a cloud have a place and a colour each, and fit: as many as
    /// there are, or as many as there is room for.
    pub proof fn clouds_fill_the_room(positions: int, colors: int, room: int)
        requires
            0 <= positions,
            0 <= colors,
            0 <= room,
        ensures
            ({
                let points = drawn(positions / 3, colors / 3);
                let count = drawn(points, room);
                &&& 3 * points <= positions && 3 * points <= colors
                &&& positions < 3 * (points + 1) || colors < 3 * (points + 1)
                &&& count <= room && count <= points
                &&& count == room || count == points
            }),
    {
    }

    /// Which points of a cloud are drawn behind what is staged: as many as still
    /// fit. Partial points at the end of either row are left out.
    pub fn plan_cloud(&self, positions: usize, colors: usize) -> (plan: CloudPlan)
        requires
            self.is_valid(),
        ensures
            plan.points == drawn(positions as int / 3, colors as int / 3),
            plan.drawn == drawn(plan.points as int, self.limit() - self.staged()),
            plan.drawn <= plan.points,
    {
        let points: usize = if positions / 3 < colors / 3 {
            positions / 3
        } else {
            colors / 3
        };
        let room: usize = self.max_primitives - self.words.len() / INSTANCE_WORDS;
        let drawn: usize = if points < room {
            points
        } else {
            room
        };
        CloudPlan { points, drawn }
    }
}

/// Whether every number of a row is one.
pub fn valid_words(words: &[u32]) -> (valid: bool)
    ensures
        valid == all_numbers(words@),
{
    let mut index: usize = 0;
    while index < words.len()
        invariant
            index <= words@.len(),
            forall|i: int| 0 <= i < index ==> is_number(#[trigger] words@[i]),
        decreases words@.len() - index,
    {
        if !is_finite(words[index]) {
            return false;
        }
        index = index + 1;
    }
    true
}

/// An instance holds its four corners and then its colour, each number once.
pub proof fn instances_hold_corners_and_colour(corners: Seq<u32>, color: Seq<u32>, i: int)
    requires
        corners.len() == 8,
        color.len() == 4,
    ensures
        instance_words(corners, color).len() == INSTANCE_WORDS,
        0 <= i < 8 ==> instance_words(corners, color)[i] == corners[i],
        8 <= i < 12 ==> instance_words(corners, color)[i] == color[i - 8],
{
}

/// Shader attributes read the corners and the colour of an instance where they stand.
pub proof fn attributes_read_corners_and_colour(location: int)
    requires
        0 <= location < 5,
    ensures
        location < 4 ==> attribute(location).0 == 4 * (2 * location) && attribute(location).1 == 2,
        location == 4 ==> attribute(location).0 == 4 * 8 && attribute(location).1 == 4,
{
}

} // verus!
