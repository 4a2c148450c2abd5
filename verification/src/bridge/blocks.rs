//! What a block is, which blocks and limits are refused, and why.
use crate::text::{decimal_text, push_decimal};
use vstd::prelude::*;

verus! {

/// How many bytes one slot's header takes, kept apart from its neighbours.
pub const SLOT_BYTES: usize = 64;

/// How many bytes one sample takes.
pub const SAMPLE_BYTES: usize = 4;

/// Build-time configuration for a ring.
///
/// All three limits are fixed after construction. Construction allocates all
/// backing storage, so transfer calls need no allocation.
#[derive(Clone, Copy, Debug, PartialEq, Eq, Structural)]
pub struct RingConfig {
    /// Number of complete blocks the queue can hold concurrently.
    pub capacity: usize,
    /// Greatest number of planar channels in one block.
    pub max_channels: usize,
    /// Greatest number of frames in each channel of one block.
    pub max_frames: usize,
}

impl RingConfig {
    /// Creates configuration with fixed queue, channel, and frame limits.
    #[must_use]
    pub fn new(capacity: usize, max_channels: usize, max_frames: usize) -> (config: Self)
        ensures
            config == (RingConfig { capacity, max_channels, max_frames }),
    {
        RingConfig { capacity, max_channels, max_frames }
    }

    /// How many samples one slot holds.
    pub open spec fn cells_per_block(self) -> int {
        self.max_channels * self.max_frames
    }

    /// How many samples all the slots hold.
    pub open spec fn cell_count(self) -> int {
        self.capacity * self.cells_per_block()
    }

    /// Why no ring can be built with these limits.
    pub open spec fn problem(self) -> Option<RingConfigError> {
        if self.capacity == 0 {
            Some(RingConfigError::ZeroCapacity)
        } else if self.max_channels == 0 {
            Some(RingConfigError::ZeroMaxChannels)
        } else if self.max_frames == 0 {
            Some(RingConfigError::ZeroMaxFrames)
        } else if self.capacity > isize::MAX as int / SLOT_BYTES as int || self.cell_count()
            > isize::MAX as int / SAMPLE_BYTES as int {
            Some(RingConfigError::StorageSizeOverflow)
        } else {
            None
        }
    }

    /// Whether a ring can be built with these limits.
    pub open spec fn is_valid(self) -> bool {
        self.problem() is None
    }

    /// Where the samples of a channel of a slot begin.
    pub open spec fn start(self, slot: int, channel: int) -> int {
        slot * self.cells_per_block() + channel * self.max_frames
    }
}

/// One slot holds no more samples than all the slots do.
pub proof fn a_slot_is_a_part(config: RingConfig)
    requires
        config.capacity > 0,
        config.max_channels > 0,
        config.max_frames > 0,
    ensures
        0 < config.cells_per_block() <= config.cell_count(),
{
    let cells = config.cells_per_block();
    assert(0 < cells) by (nonlinear_arith)
        requires
            cells == config.max_channels * config.max_frames,
            config.max_channels > 0,
            config.max_frames > 0,
    ;
    assert(cells <= config.cell_count()) by (nonlinear_arith)
        requires
            config.cell_count() == config.capacity * cells,
            config.capacity > 0,
            cells > 0,
    ;
}

/// Error returned when fixed backing storage cannot be configured.
#[derive(Clone, Copy, Debug, PartialEq, Eq, Structural)]
pub enum RingConfigError {
    /// Queue capacity was zero.
    ZeroCapacity,
    /// Per-block channel limit was zero.
    ZeroMaxChannels,
    /// Per-channel frame limit was zero.
    ZeroMaxFrames,
    /// Backing-storage length overflowed `usize` or exceeded addressable allocation size.
    StorageSizeOverflow,
}

impl RingConfigError {
    /// The sentence for a log.
    pub open spec fn sentence(self) -> Seq<char> {
        match self {
            RingConfigError::ZeroCapacity => "audio ring capacity must be greater than zero"@,
            RingConfigError::ZeroMaxChannels =>
                "audio ring maximum channel count must be greater than zero"@,
            RingConfigError::ZeroMaxFrames =>
                "audio ring maximum frame count must be greater than zero"@,
            RingConfigError::StorageSizeOverflow =>
                "audio ring backing storage size is not addressable"@,
        }
    }

    /// The sentence for a log.
    pub fn message(&self) -> (message: String)
        ensures
            message@ == self.sentence(),
    {
        match self {
            RingConfigError::ZeroCapacity => String::from_str(
                "audio ring capacity must be greater than zero",
            ),
            RingConfigError::ZeroMaxChannels => String::from_str(
                "audio ring maximum channel count must be greater than zero",
            ),
            RingConfigError::ZeroMaxFrames => String::from_str(
                "audio ring maximum frame count must be greater than zero",
            ),
            RingConfigError::StorageSizeOverflow => String::from_str(
                "audio ring backing storage size is not addressable",
            ),
        }
    }
}

/// Stream metadata supplied with one audio block.
///
/// Channel and frame counts come from the planar source and are returned in
/// [`BlockInfo`].
#[derive(Clone, Copy, Debug, PartialEq, Eq, Structural)]
pub struct AudioBlockMeta {
    /// Absolute stream-frame position of first sample in this block.
    pub stream_frame: u64,
    /// Source sample rate in hertz. Must be nonzero.
    pub sample_rate_hz: u32,
}

impl AudioBlockMeta {
    /// Creates metadata for a block beginning at `stream_frame`.
    #[must_use]
    pub fn new(stream_frame: u64, sample_rate_hz: u32) -> (meta: Self)
        ensures
            meta == (AudioBlockMeta { stream_frame, sample_rate_hz }),
    {
        AudioBlockMeta { stream_frame, sample_rate_hz }
    }
}

/// Description of a block successfully read or discarded from queue.
#[derive(Clone, Copy, Debug, PartialEq, Eq, Structural)]
pub struct BlockInfo {
    /// Original stream metadata.
    pub meta: AudioBlockMeta,
    /// Number of planar channels in this block.
    pub channels: usize,
    /// Number of frames in every channel of this block.
    pub frames: usize,
}

/// Error returned when a block cannot be pushed.
#[derive(Clone, Copy, Debug, PartialEq, Eq, Structural)]
pub enum PushError {
    /// Every ring slot is occupied. No source samples were copied.
    Full,
    /// Source contained no channels.
    NoChannels,
    /// Source channels contained no frames.
    NoFrames,
    /// Source channel count exceeded configured maximum.
    TooManyChannels {
        /// Number of source channels.
        provided: usize,
        /// Configured maximum channel count.
        maximum: usize,
    },
    /// Source frame count exceeded configured maximum.
    TooManyFrames {
        /// Number of frames in every source channel.
        provided: usize,
        /// Configured maximum frames per channel.
        maximum: usize,
    },
    /// Source channels did not all contain the same number of frames.
    UnevenChannelFrames {
        /// Index of channel with unexpected frame count.
        channel: usize,
        /// Required frame count, taken from first channel.
        expected: usize,
        /// Actual frame count in this channel.
        actual: usize,
    },
    /// Block metadata had a zero sample rate.
    ZeroSampleRate,
}

impl PushError {
    /// The sentence for a log.
    pub open spec fn sentence(self) -> Seq<char> {
        match self {
            PushError::Full => "audio ring is full"@,
            PushError::NoChannels => "audio block has no channels"@,
            PushError::NoFrames => "audio block has no frames"@,
            PushError::TooManyChannels { provided, maximum } => "audio block has "@ + decimal_text(
                provided as nat,
            ) + " channels; ring maximum is "@ + decimal_text(maximum as nat),
            PushError::TooManyFrames { provided, maximum } => "audio block has "@ + decimal_text(
                provided as nat,
            ) + " frames; ring maximum is "@ + decimal_text(maximum as nat),
            PushError::UnevenChannelFrames { channel, expected, actual } => "audio block channel "@
                + decimal_text(channel as nat) + " has "@ + decimal_text(actual as nat)
                + " frames; expected "@ + decimal_text(expected as nat),
            PushError::ZeroSampleRate => "audio block sample rate must be greater than zero"@,
        }
    }

    /// The sentence for a log.
    pub fn message(&self) -> (message: String)
        ensures
            message@ == self.sentence(),
    {
        match self {
            PushError::Full => String::from_str("audio ring is full"),
            PushError::NoChannels => String::from_str("audio block has no channels"),
            PushError::NoFrames => String::from_str("audio block has no frames"),
            PushError::TooManyChannels { provided, maximum } => {
                let mut message = String::from_str("audio block has ");
                push_decimal(&mut message, *provided as u64);
                message.append(" channels; ring maximum is ");
                push_decimal(&mut message, *maximum as u64);
                message
            },
            PushError::TooManyFrames { provided, maximum } => {
                let mut message = String::from_str("audio block has ");
                push_decimal(&mut message, *provided as u64);
                message.append(" frames; ring maximum is ");
                push_decimal(&mut message, *maximum as u64);
                message
            },
            PushError::UnevenChannelFrames { channel, expected, actual } => {
                let mut message = String::from_str("audio block channel ");
                push_decimal(&mut message, *channel as u64);
                message.append(" has ");
                push_decimal(&mut message, *actual as u64);
                message.append(" frames; expected ");
                push_decimal(&mut message, *expected as u64);
                message
            },
            PushError::ZeroSampleRate => String::from_str(
                "audio block sample rate must be greater than zero",
            ),
        }
    }
}

/// Error returned when a block cannot be copied out.
///
/// Unlike [`PushError::Full`], these errors leave ready block in queue so
/// caller can retry with sufficiently large preallocated destination.
#[derive(Clone, Copy, Debug, PartialEq, Eq, Structural)]
pub enum PopError {
    /// Destination did not expose enough planar channels.
    TooFewDestinationChannels {
        /// Number of channels stored in pending block.
        required: usize,
        /// Number of destination channels supplied by caller.
        provided: usize,
    },
    /// One destination channel was too short for pending block.
    DestinationChannelTooShort {
        /// Index of short destination channel.
        channel: usize,
        /// Number of frames stored in pending block.
        required: usize,
        /// Available destination frames.
        provided: usize,
    },
}

impl PopError {
    /// The sentence for a log.
    pub open spec fn sentence(self) -> Seq<char> {
        match self {
            PopError::TooFewDestinationChannels { required, provided } => "audio destination has "@
                + decimal_text(provided as nat) + " channels; pending block needs "@ + decimal_text(
                required as nat,
            ),
            PopError::DestinationChannelTooShort { channel, required, provided } =>
                "audio destination channel "@ + decimal_text(channel as nat) + " has "@
                + decimal_text(provided as nat) + " frames; pending block needs "@ + decimal_text(
                required as nat,
            ),
        }
    }

    /// The sentence for a log.
    pub fn message(&self) -> (message: String)
        ensures
            message@ == self.sentence(),
    {
        match self {
            PopError::TooFewDestinationChannels { required, provided } => {
                let mut message = String::from_str("audio destination has ");
                push_decimal(&mut message, *provided as u64);
                message.append(" channels; pending block needs ");
                push_decimal(&mut message, *required as u64);
                message
            },
            PopError::DestinationChannelTooShort { channel, required, provided } => {
                let mut message = String::from_str("audio destination channel ");
                push_decimal(&mut message, *channel as u64);
                message.append(" has ");
                push_decimal(&mut message, *provided as u64);
                message.append(" frames; pending block needs ");
                push_decimal(&mut message, *required as u64);
                message
            },
        }
    }
}

/// A block: its description and the samples of its channels.
pub type Block = (BlockInfo, Seq<Seq<u32>>);

/// The samples of the channels.
pub open spec fn planes(source: Seq<&[u32]>) -> Seq<Seq<u32>> {
    Seq::new(source.len(), |channel: int| source[channel]@)
}

/// The first channel from `from` on whose length differs from the first
/// channel's, or the channel count.
pub open spec fn first_uneven(source: Seq<Seq<u32>>, from: int) -> int
    decreases source.len() - from,
{
    if 0 <= from < source.len() && source[from].len() == source[0].len() {
        first_uneven(source, from + 1)
    } else {
        from
    }
}

/// Why a block can go into no ring of these limits, full or not.
pub open spec fn shape_problem(
    config: RingConfig,
    meta: AudioBlockMeta,
    source: Seq<Seq<u32>>,
) -> Option<PushError> {
    if meta.sample_rate_hz == 0 {
        Some(PushError::ZeroSampleRate)
    } else if source.len() == 0 {
        Some(PushError::NoChannels)
    } else if source.len() > config.max_channels {
        Some(
            PushError::TooManyChannels {
                provided: source.len() as usize,
                maximum: config.max_channels,
            },
        )
    } else if source[0].len() == 0 {
        Some(PushError::NoFrames)
    } else if source[0].len() > config.max_frames {
        Some(
            PushError::TooManyFrames {
                provided: source[0].len() as usize,
                maximum: config.max_frames,
            },
        )
    } else if first_uneven(source, 1) < source.len() {
        Some(
            PushError::UnevenChannelFrames {
                channel: first_uneven(source, 1) as usize,
                expected: source[0].len() as usize,
                actual: source[first_uneven(source, 1)].len() as usize,
            },
        )
    } else {
        None
    }
}

/// The description of a block.
pub open spec fn info_of(meta: AudioBlockMeta, source: Seq<Seq<u32>>) -> BlockInfo {
    BlockInfo { meta, channels: source.len() as usize, frames: source[0].len() as usize }
}

/// Channels of which none is uneven all have the first one's length.
pub proof fn even_up_to(source: Seq<Seq<u32>>, from: int)
    requires
        1 <= from <= source.len(),
        first_uneven(source, from) >= source.len(),
    ensures
        forall|channel: int|
            from <= channel < source.len() ==> (#[trigger] source[channel]).len()
                == source[0].len(),
    decreases source.len() - from,
{
    if from < source.len() {
        even_up_to(source, from + 1);
    }
}

/// Checks that a block can go into a ring of these limits.
pub fn validate_source(config: RingConfig, meta: AudioBlockMeta, source: &[&[u32]]) -> (result:
    Result<BlockInfo, PushError>)
    ensures
        match result {
            Ok(info) => shape_problem(config, meta, planes(source@)) is None && info == info_of(
                meta,
                planes(source@),
            ) && forall|channel: int|
                0 <= channel < source@.len() ==> (#[trigger] source@[channel])@.len()
                    == info.frames,
            Err(problem) => shape_problem(config, meta, planes(source@)) == Some(problem),
        },
{
    let ghost shape = planes(source@);
    if meta.sample_rate_hz == 0 {
        return Err(PushError::ZeroSampleRate);
    }
    if source.len() == 0 {
        return Err(PushError::NoChannels);
    }
    if source.len() > config.max_channels {
        return Err(
            PushError::TooManyChannels { provided: source.len(), maximum: config.max_channels },
        );
    }
    let frames: usize = source[0].len();
    assert(shape[0].len() == frames);
    if frames == 0 {
        return Err(PushError::NoFrames);
    }
    if frames > config.max_frames {
        return Err(PushError::TooManyFrames { provided: frames, maximum: config.max_frames });
    }
    let mut channel: usize = 1;
    while channel < source.len()
        invariant
            1 <= channel <= source@.len(),
            shape == planes(source@),
            shape[0].len() == frames,
            meta.sample_rate_hz != 0,
            0 < source@.len() <= config.max_channels,
            0 < frames <= config.max_frames,
            first_uneven(shape, 1) == first_uneven(shape, channel as int),
            forall|i: int| 0 <= i < channel ==> (#[trigger] source@[i])@.len() == frames,
        decreases source@.len() - channel,
    {
        let actual: usize = source[channel].len();
        assert(shape[channel as int].len() == actual);
        if actual != frames {
            return Err(PushError::UnevenChannelFrames { channel, expected: frames, actual });
        }
        channel = channel + 1;
    }
    Ok(BlockInfo { meta, channels: source.len(), frames })
}

/// The first of the first `count` channels that is shorter than `frames`, or
/// `count`.
pub open spec fn first_short(lengths: Seq<nat>, count: int, frames: nat, from: int) -> int
    decreases count - from,
{
    if 0 <= from < count && lengths[from] >= frames {
        first_short(lengths, count, frames, from + 1)
    } else {
        from
    }
}

/// Why a block cannot be copied into channels of these lengths.
pub open spec fn destination_problem(info: BlockInfo, lengths: Seq<nat>) -> Option<PopError> {
    let short = first_short(lengths, info.channels as int, info.frames as nat, 0);
    if lengths.len() < info.channels {
        Some(
            PopError::TooFewDestinationChannels {
                required: info.channels,
                provided: lengths.len() as usize,
            },
        )
    } else if short < info.channels {
        Some(
            PopError::DestinationChannelTooShort {
                channel: short as usize,
                required: info.frames,
                provided: lengths[short] as usize,
            },
        )
    } else {
        None
    }
}

/// The lengths of the channels.
pub open spec fn lengths(destination: Seq<&mut [u32]>) -> Seq<nat> {
    Seq::new(destination.len(), |channel: int| destination[channel]@.len())
}

/// Checks that a block can be copied into the channels.
pub fn validate_destination(info: BlockInfo, destination: &[&mut [u32]]) -> (result: Result<
    (),
    PopError,
>)
    ensures
        match result {
            Ok(()) => destination_problem(info, lengths(destination@)) is None && info.channels
                <= destination@.len() && forall|channel: int|
                0 <= channel < info.channels ==> #[trigger] destination@[channel]@.len()
                    >= info.frames,
            Err(problem) => destination_problem(info, lengths(destination@)) == Some(problem),
        },
{
    let ghost sizes = lengths(destination@);
    if destination.len() < info.channels {
        return Err(
            PopError::TooFewDestinationChannels {
                required: info.channels,
                provided: destination.len(),
            },
        );
    }
    let mut channel: usize = 0;
    while channel < info.channels
        invariant
            sizes == lengths(destination@),
            channel <= info.channels <= destination@.len(),
            first_short(sizes, info.channels as int, info.frames as nat, 0) == first_short(
                sizes,
                info.channels as int,
                info.frames as nat,
                channel as int,
            ),
            forall|i: int| 0 <= i < channel ==> #[trigger] destination@[i]@.len() >= info.frames,
        decreases info.channels - channel,
    {
        let provided: usize = destination[channel].len();
        assert(sizes[channel as int] == provided);
        if provided < info.frames {
            return Err(
                PopError::DestinationChannelTooShort { channel, required: info.frames, provided },
            );
        }
        channel = channel + 1;
    }
    Ok(())
}

/// A ring is refused exactly where a limit is zero or its storage cannot be addressed, and
/// what is named is wrong.
pub proof fn rings_are_refused_for_their_limits(config: RingConfig)
    ensures
        config.problem() is None <==> {
            &&& config.capacity > 0
            &&& config.max_channels > 0
            &&& config.max_frames > 0
            &&& config.capacity * 64 <= isize::MAX
            &&& config.capacity * (config.max_channels * config.max_frames) * 4 <= isize::MAX
        },
        match config.problem() {
            None => true,
            Some(RingConfigError::ZeroCapacity) => config.capacity == 0,
            Some(RingConfigError::ZeroMaxChannels) => config.max_channels == 0,
            Some(RingConfigError::ZeroMaxFrames) => config.max_frames == 0,
            Some(RingConfigError::StorageSizeOverflow) => config.capacity * 64 > isize::MAX
                || config.capacity * (config.max_channels * config.max_frames) * 4 > isize::MAX,
        },
{
}

/// The first uneven channel is uneven and has none in front of it.
proof fn first_uneven_is_the_first(source: Seq<Seq<u32>>, from: int)
    requires
        0 <= from <= source.len(),
    ensures
        from <= first_uneven(source, from) <= source.len(),
        first_uneven(source, from) < source.len() ==> source[first_uneven(source, from)].len()
            != source[0].len(),
        forall|channel: int|
            from <= channel < first_uneven(source, from) ==> (#[trigger] source[channel]).len()
                == source[0].len(),
    decreases source.len() - from,
{
    if from < source.len() && source[from].len() == source[0].len() {
        first_uneven_is_the_first(source, from + 1);
    }
}

/// A block goes into a ring exactly where it has a rate, has channels and frames and no
/// more of either than fit, and its channels are of one length. What is named is wrong,
/// and of uneven channels the first is named.
pub proof fn blocks_are_refused_for_their_shape(
    config: RingConfig,
    meta: AudioBlockMeta,
    source: Seq<Seq<u32>>,
)
    requires
        source.len() <= usize::MAX,
        forall|channel: int|
            0 <= channel < source.len() ==> (#[trigger] source[channel]).len() <= usize::MAX,
    ensures
        shape_problem(config, meta, source) is None <==> {
            &&& meta.sample_rate_hz > 0
            &&& 0 < source.len() <= config.max_channels
            &&& 0 < source[0].len() <= config.max_frames
            &&& forall|channel: int|
                0 <= channel < source.len() ==> (#[trigger] source[channel]).len()
                    == source[0].len()
        },
        match shape_problem(config, meta, source) {
            None => true,
            Some(PushError::Full) => false,
            Some(PushError::ZeroSampleRate) => meta.sample_rate_hz == 0,
            Some(PushError::NoChannels) => source.len() == 0,
            Some(PushError::NoFrames) => source.len() > 0 && source[0].len() == 0,
            Some(PushError::TooManyChannels { provided, maximum }) => {
                provided == source.len() && maximum == config.max_channels && provided > maximum
            },
            Some(PushError::TooManyFrames { provided, maximum }) => {
                provided == source[0].len() && maximum == config.max_frames && provided > maximum
            },
            Some(PushError::UnevenChannelFrames { channel, expected, actual }) => {
                &&& 0 < channel < source.len()
                &&& expected == source[0].len()
                &&& actual == source[channel as int].len()
                &&& actual != expected
                &&& forall|earlier: int|
                    0 <= earlier < channel ==> (#[trigger] source[earlier]).len() == expected
            },
        },
{
    if source.len() > 0 {
        first_uneven_is_the_first(source, 1);
    }
}

/// The first short channel is short and has none in front of it.
proof fn first_short_is_the_first(lengths: Seq<nat>, count: int, frames: nat, from: int)
    requires
        0 <= from <= count <= lengths.len(),
    ensures
        from <= first_short(lengths, count, frames, from) <= count,
        first_short(lengths, count, frames, from) < count ==> lengths[first_short(
            lengths,
            count,
            frames,
            from,
        )] < frames,
        forall|channel: int|
            from <= channel < first_short(lengths, count, frames, from)
                ==> #[trigger] lengths[channel] >= frames,
    decreases count - from,
{
    if from < count && lengths[from] >= frames {
        first_short_is_the_first(lengths, count, frames, from + 1);
    }
}

/// A block is copied out exactly where there is a channel for each of its channels and
/// each of these is long enough. What is named is wrong, and of short channels the first
/// is named.
pub proof fn destinations_are_refused_for_their_room(info: BlockInfo, lengths: Seq<nat>)
    requires
        lengths.len() <= usize::MAX,
        forall|channel: int|
            0 <= channel < lengths.len() ==> #[trigger] lengths[channel] <= usize::MAX,
    ensures
        destination_problem(info, lengths) is None <==> {
            &&& lengths.len() >= info.channels
            &&& forall|channel: int|
                0 <= channel < info.channels ==> #[trigger] lengths[channel] >= info.frames
        },
        match destination_problem(info, lengths) {
            None => true,
            Some(PopError::TooFewDestinationChannels { required, provided }) => {
                required == info.channels && provided == lengths.len() && provided < required
            },
            Some(PopError::DestinationChannelTooShort { channel, required, provided }) => {
                &&& channel < info.channels
                &&& required == info.frames
                &&& provided == lengths[channel as int]
                &&& provided < required
                &&& forall|earlier: int|
                    0 <= earlier < channel ==> #[trigger] lengths[earlier] >= required
            },
        },
{
    if lengths.len() >= info.channels {
        first_short_is_the_first(lengths, info.channels as int, info.frames as nat, 0);
    }
}

/// A description says what a block has: its channels, its frames, and what it was given.
pub proof fn descriptions_say_what_blocks_have(meta: AudioBlockMeta, source: Seq<Seq<u32>>)
    requires
        0 < source.len() <= usize::MAX,
        source[0].len() <= usize::MAX,
    ensures
        info_of(meta, source).channels == source.len(),
        info_of(meta, source).frames == source[0].len(),
        info_of(meta, source).meta == meta,
{
}

} // verus!
