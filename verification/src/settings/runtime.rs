//! What the audio thread reads of the persisted state.
use crate::settings::fields::{
    flag_value, next_field, parse_bool, ranged_value, state_version, valid_i8, version_of,
};
use crate::settings::options::{
    AnalysisSource, FftSize, OscilloscopeCycles, OscilloscopeMode, SpectrumScale, VuMode,
};
use crate::text::bytes_spell;
use vstd::prelude::*;

verus! {

/// How many modules the rail holds.
pub const MODULE_COUNT: usize = 9;

/// The state version from which on a block lists every module.
pub const STATE_VERSION: u8 = 2;

/// How many modules a block of an older version lists.
pub const LEGACY_MODULE_COUNT: usize = 7;

/// The reference level of the needle where the state names none.
pub const DEFAULT_CALIBRATION: i8 = -18;

/// The loudness target where the state names none.
pub const DEFAULT_TARGET: i8 = -14;

/// The name of the module at a place, as the page knows it.
pub open spec fn module_label(module: int) -> Seq<char> {
    if module == 0 {
        "loudness"@
    } else if module == 1 {
        "spectrum"@
    } else if module == 2 {
        "spectrogram"@
    } else if module == 3 {
        "waveform"@
    } else if module == 4 {
        "stereo"@
    } else if module == 5 {
        "object"@
    } else if module == 6 {
        "visuals"@
    } else if module == 7 {
        "vu"@
    } else {
        "oscilloscope"@
    }
}

/// The names of the modules, in the order of the state block.
pub fn modules() -> (names: [&'static str; 9])
    ensures
        forall|i: int| 0 <= i < 9 ==> (#[trigger] names@[i])@ == module_label(i),
{
    [
        "loudness",
        "spectrum",
        "spectrogram",
        "waveform",
        "stereo",
        "object",
        "visuals",
        "vu",
        "oscilloscope",
    ]
}

/// Which modules are on where the state says nothing.
pub open spec fn default_enabled() -> Seq<bool> {
    Seq::new(9, |i: int| i != 6)
}

/// Whether a loudness target is one that the page offers.
pub open spec fn is_target(lufs: i8) -> bool {
    lufs == -24 || lufs == -23 || lufs == -16 || lufs == -14 || lufs == -9
}

/// Audio-thread view. All fields are Copy. Reading one owns no String, Vec,
/// lock or host object.
#[derive(Clone, Copy, Debug, PartialEq, Eq)]
pub struct RuntimeSettings {
    pub enabled: [bool; 9],
    pub analysis_source: AnalysisSource,
    pub trim_db: i8,
    pub fft_size: FftSize,
    pub spectrum_scale: SpectrumScale,
    pub spectrum_smoothing: u8,
    pub spectrum_tilt_db: i8,
    pub spectrum_hold: bool,
    pub vu_mode: VuMode,
    pub vu_calibration: i8,
    pub oscilloscope_mode: OscilloscopeMode,
    pub oscilloscope_cycles: OscilloscopeCycles,
    pub loudness_timeline: bool,
    pub loudness_histogram: bool,
    pub loudness_overs: bool,
    pub target_lufs: i8,
}

/// Fields of a state block: keys and values.
pub type Listed = Seq<(Seq<u8>, Seq<u8>)>;

/// What a field makes of a setting: the value that it gives under the
/// setting's own key, where that value can be read.
pub open spec fn updated<T>(
    field: (Seq<u8>, Seq<u8>),
    key: Seq<char>,
    read: spec_fn(Seq<u8>) -> Option<T>,
    before: T,
) -> T {
    if field.0 == vstd::utf8::encode_utf8(key) {
        match read(field.1) {
            Some(value) => value,
            None => before,
        }
    } else {
        before
    }
}

/// The setting under a key: the last value in the list that can be read, or
/// the default.
pub open spec fn chosen<T>(
    listed: Listed,
    key: Seq<char>,
    read: spec_fn(Seq<u8>) -> Option<T>,
    default: T,
) -> T
    decreases listed.len(),
{
    if listed.len() == 0 {
        default
    } else {
        updated(listed.last(), key, read, chosen(listed.drop_last(), key, read, default))
    }
}

/// How many module flags a block of the version lists.
pub open spec fn flag_count(version: u8) -> int {
    if version >= STATE_VERSION {
        MODULE_COUNT as int
    } else {
        LEGACY_MODULE_COUNT as int
    }
}

/// The flag of a module after its byte of an `m` value: `1` is on and `0` is off.
/// Any other byte is malformed and leaves the flag as it is.
pub open spec fn flag_after(byte: u8, before: bool) -> bool {
    if byte == 0x31 {
        true
    } else if byte == 0x30 {
        false
    } else {
        before
    }
}

/// The module flags after one `m` value. Modules that the value does not reach
/// keep their flag.
pub open spec fn flags_after(value: Seq<u8>, version: u8, before: Seq<bool>) -> Seq<bool> {
    Seq::new(
        9,
        |i: int|
            if i < value.len() && i < flag_count(version) {
                flag_after(value[i], before[i])
            } else {
                before[i]
            },
    )
}

/// The module flags after one field.
pub open spec fn flags_updated(
    field: (Seq<u8>, Seq<u8>),
    version: u8,
    before: Seq<bool>,
) -> Seq<bool> {
    if field.0 == vstd::utf8::encode_utf8("m"@) {
        flags_after(field.1, version, before)
    } else {
        before
    }
}

/// The module flags after all the fields, starting from the defaults.
pub open spec fn chosen_flags(listed: Listed, version: u8) -> Seq<bool>
    decreases listed.len(),
{
    if listed.len() == 0 {
        default_enabled()
    } else {
        flags_updated(listed.last(), version, chosen_flags(listed.drop_last(), version))
    }
}

/// Reads a signed number in a range.
pub open spec fn ranged(minimum: int, maximum: int) -> spec_fn(Seq<u8>) -> Option<i8> {
    |value: Seq<u8>| ranged_value(value, minimum, maximum)
}

/// Reads a percentage.
pub open spec fn percentage() -> spec_fn(Seq<u8>) -> Option<u8> {
    |value: Seq<u8>|
        match ranged_value(value, 0, 100) {
            Some(number) => Some(number as u8),
            None => None,
        }
}

/// Reads a loudness target.
pub open spec fn target() -> spec_fn(Seq<u8>) -> Option<i8> {
    |value: Seq<u8>|
        match ranged_value(value, -60, 0) {
            Some(number) => if is_target(number) {
                Some(number)
            } else {
                None
            },
            None => None,
        }
}

/// Reads a truth value.
pub open spec fn flag() -> spec_fn(Seq<u8>) -> Option<bool> {
    |value: Seq<u8>| flag_value(value)
}

/// Reads the name of a signal.
pub open spec fn source_name() -> spec_fn(Seq<u8>) -> Option<AnalysisSource> {
    |value: Seq<u8>| AnalysisSource::named(value)
}

/// Reads a spectrum's frame count.
pub open spec fn fft_name() -> spec_fn(Seq<u8>) -> Option<FftSize> {
    |value: Seq<u8>| FftSize::named(value)
}

/// Reads the name of a spacing.
pub open spec fn scale_name() -> spec_fn(Seq<u8>) -> Option<SpectrumScale> {
    |value: Seq<u8>| SpectrumScale::named(value)
}

/// Reads the name of a needle.
pub open spec fn vu_name() -> spec_fn(Seq<u8>) -> Option<VuMode> {
    |value: Seq<u8>| VuMode::named(value)
}

/// Reads the name of an oscilloscope mode.
pub open spec fn mode_name() -> spec_fn(Seq<u8>) -> Option<OscilloscopeMode> {
    |value: Seq<u8>| OscilloscopeMode::named(value)
}

/// Reads the name of a cycle count.
pub open spec fn cycles_name() -> spec_fn(Seq<u8>) -> Option<OscilloscopeCycles> {
    |value: Seq<u8>| OscilloscopeCycles::named(value)
}

/// The signal after one field.
fn take_source(key: &[u8], value: &[u8], before: AnalysisSource) -> (after: AnalysisSource)
    ensures
        after == updated((key@, value@), "route"@, source_name(), before),
{
    if bytes_spell(key, "route") {
        if let Some(read) = AnalysisSource::parse(value) {
            return read;
        }
    }
    before
}

/// A number in a range after one field.
fn take_ranged(key: &[u8], value: &[u8], name: &str, minimum: i8, maximum: i8, before: i8) -> (after: i8)
    ensures
        after == updated((key@, value@), name@, ranged(minimum as int, maximum as int), before),
{
    if bytes_spell(key, name) {
        if let Some(read) = valid_i8(value, minimum, maximum) {
            return read;
        }
    }
    before
}

/// The frame count after one field.
fn take_fft(key: &[u8], value: &[u8], before: FftSize) -> (after: FftSize)
    ensures
        after == updated((key@, value@), "fft"@, fft_name(), before),
{
    if bytes_spell(key, "fft") {
        if let Some(read) = FftSize::parse(value) {
            return read;
        }
    }
    before
}

/// The spacing after one field.
fn take_scale(key: &[u8], value: &[u8], before: SpectrumScale) -> (after: SpectrumScale)
    ensures
        after == updated((key@, value@), "scale"@, scale_name(), before),
{
    if bytes_spell(key, "scale") {
        if let Some(read) = SpectrumScale::parse(value) {
            return read;
        }
    }
    before
}

/// The smoothing after one field.
fn take_smoothing(key: &[u8], value: &[u8], before: u8) -> (after: u8)
    ensures
        after == updated((key@, value@), "smooth"@, percentage(), before),
{
    if bytes_spell(key, "smooth") {
        if let Some(read) = valid_i8(value, 0, 100) {
            return read as u8;
        }
    }
    before
}

/// A truth value after one field.
fn take_flag(key: &[u8], value: &[u8], name: &str, before: bool) -> (after: bool)
    ensures
        after == updated((key@, value@), name@, flag(), before),
{
    if bytes_spell(key, name) {
        if let Some(read) = parse_bool(value) {
            return read;
        }
    }
    before
}

/// The needle after one field.
fn take_vu(key: &[u8], value: &[u8], before: VuMode) -> (after: VuMode)
    ensures
        after == updated((key@, value@), "vu"@, vu_name(), before),
{
    if bytes_spell(key, "vu") {
        if let Some(read) = VuMode::parse(value) {
            return read;
        }
    }
    before
}

/// The oscilloscope mode after one field.
fn take_mode(key: &[u8], value: &[u8], before: OscilloscopeMode) -> (after: OscilloscopeMode)
    ensures
        after == updated((key@, value@), "osc"@, mode_name(), before),
{
    if bytes_spell(key, "osc") {
        if let Some(read) = OscilloscopeMode::parse(value) {
            return read;
        }
    }
    before
}

/// The cycle count after one field.
fn take_cycles(key: &[u8], value: &[u8], before: OscilloscopeCycles) -> (after: OscilloscopeCycles)
    ensures
        after == updated((key@, value@), "cycles"@, cycles_name(), before),
{
    if bytes_spell(key, "cycles") {
        if let Some(read) = OscilloscopeCycles::parse(value) {
            return read;
        }
    }
    before
}

/// The loudness target after one field.
fn take_target(key: &[u8], value: &[u8], before: i8) -> (after: i8)
    ensures
        after == updated((key@, value@), "target"@, target(), before),
{
    if bytes_spell(key, "target") {
        if let Some(read) = valid_i8(value, -60, 0) {
            if read == -24 || read == -23 || read == -16 || read == -14 || read == -9 {
                return read;
            }
        }
    }
    before
}

impl Default for RuntimeSettings {
    fn default() -> (settings: Self)
        ensures
            settings.reflects(Seq::empty(), STATE_VERSION),
            settings.enabled@ == default_enabled(),
    {
        let settings = RuntimeSettings {
            enabled: [true, true, true, true, true, true, false, true, true],
            analysis_source: AnalysisSource::Stereo,
            trim_db: 0,
            fft_size: FftSize::Fft2048,
            spectrum_scale: SpectrumScale::Log,
            spectrum_smoothing: 90,
            spectrum_tilt_db: 0,
            spectrum_hold: false,
            vu_mode: VuMode::Vu,
            vu_calibration: DEFAULT_CALIBRATION,
            oscilloscope_mode: OscilloscopeMode::Pitch,
            oscilloscope_cycles: OscilloscopeCycles::Multi,
            loudness_timeline: true,
            loudness_histogram: true,
            loudness_overs: true,
            target_lufs: DEFAULT_TARGET,
        };
        assert(settings.enabled@ =~= default_enabled());
        settings
    }
}

impl RuntimeSettings {
    /// Whether every setting is what the fields of a block of the version
    /// make it: the last readable value under its key, or its default.
    pub open spec fn reflects(self, listed: Listed, version: u8) -> bool {
        &&& self.enabled@ == chosen_flags(listed, version)
        &&& self.analysis_source == chosen(
            listed,
            "route"@,
            source_name(),
            AnalysisSource::Stereo,
        )
        &&& self.trim_db == chosen(listed, "trim"@, ranged(-24, 24), 0)
        &&& self.fft_size == chosen(listed, "fft"@, fft_name(), FftSize::Fft2048)
        &&& self.spectrum_scale == chosen(listed, "scale"@, scale_name(), SpectrumScale::Log)
        &&& self.spectrum_smoothing == chosen(listed, "smooth"@, percentage(), 90)
        &&& self.spectrum_tilt_db == chosen(listed, "tilt"@, ranged(-18, 18), 0)
        &&& self.spectrum_hold == chosen(listed, "hold"@, flag(), false)
        &&& self.vu_mode == chosen(listed, "vu"@, vu_name(), VuMode::Vu)
        &&& self.vu_calibration == chosen(listed, "cal"@, ranged(-36, -6), DEFAULT_CALIBRATION)
        &&& self.oscilloscope_mode == chosen(listed, "osc"@, mode_name(), OscilloscopeMode::Pitch)
        &&& self.oscilloscope_cycles == chosen(
            listed,
            "cycles"@,
            cycles_name(),
            OscilloscopeCycles::Multi,
        )
        &&& self.loudness_timeline == chosen(listed, "timeline"@, flag(), true)
        &&& self.loudness_histogram == chosen(listed, "hist"@, flag(), true)
        &&& self.loudness_overs == chosen(listed, "overs"@, flag(), true)
        &&& self.target_lufs == chosen(listed, "target"@, target(), DEFAULT_TARGET)
    }

    /// Whether every number lies in the range that the meters take.
    pub open spec fn in_range(self) -> bool {
        &&& -24 <= self.trim_db <= 24
        &&& self.spectrum_smoothing <= 100
        &&& -18 <= self.spectrum_tilt_db <= 18
        &&& -36 <= self.vu_calibration <= -6
        &&& is_target(self.target_lufs)
    }

    /// Whether one field leads from `before` to these settings.
    pub open spec fn follows(self, before: Self, field: (Seq<u8>, Seq<u8>), version: u8) -> bool {
        &&& self.enabled@ == flags_updated(field, version, before.enabled@)
        &&& self.analysis_source == updated(field, "route"@, source_name(), before.analysis_source)
        &&& self.trim_db == updated(field, "trim"@, ranged(-24, 24), before.trim_db)
        &&& self.fft_size == updated(field, "fft"@, fft_name(), before.fft_size)
        &&& self.spectrum_scale == updated(field, "scale"@, scale_name(), before.spectrum_scale)
        &&& self.spectrum_smoothing == updated(
            field,
            "smooth"@,
            percentage(),
            before.spectrum_smoothing,
        )
        &&& self.spectrum_tilt_db == updated(
            field,
            "tilt"@,
            ranged(-18, 18),
            before.spectrum_tilt_db,
        )
        &&& self.spectrum_hold == updated(field, "hold"@, flag(), before.spectrum_hold)
        &&& self.vu_mode == updated(field, "vu"@, vu_name(), before.vu_mode)
        &&& self.vu_calibration == updated(field, "cal"@, ranged(-36, -6), before.vu_calibration)
        &&& self.oscilloscope_mode == updated(field, "osc"@, mode_name(), before.oscilloscope_mode)
        &&& self.oscilloscope_cycles == updated(
            field,
            "cycles"@,
            cycles_name(),
            before.oscilloscope_cycles,
        )
        &&& self.loudness_timeline == updated(field, "timeline"@, flag(), before.loudness_timeline)
        &&& self.loudness_histogram == updated(field, "hist"@, flag(), before.loudness_histogram)
        &&& self.loudness_overs == updated(field, "overs"@, flag(), before.loudness_overs)
        &&& self.target_lufs == updated(field, "target"@, target(), before.target_lufs)
    }

    /// Takes one field of a state block in.
    fn apply(&mut self, key: &[u8], value: &[u8], version: u8)
        ensures
            final(self).follows(*old(self), (key@, value@), version),
    {
        if bytes_spell(key, "m") {
            parse_enabled(value, version, &mut self.enabled);
        }
        self.analysis_source = take_source(key, value, self.analysis_source);
        self.trim_db = take_ranged(key, value, "trim", -24, 24, self.trim_db);
        self.fft_size = take_fft(key, value, self.fft_size);
        self.spectrum_scale = take_scale(key, value, self.spectrum_scale);
        self.spectrum_smoothing = take_smoothing(key, value, self.spectrum_smoothing);
        self.spectrum_tilt_db = take_ranged(key, value, "tilt", -18, 18, self.spectrum_tilt_db);
        self.spectrum_hold = take_flag(key, value, "hold", self.spectrum_hold);
        self.vu_mode = take_vu(key, value, self.vu_mode);
        self.vu_calibration = take_ranged(key, value, "cal", -36, -6, self.vu_calibration);
        self.oscilloscope_mode = take_mode(key, value, self.oscilloscope_mode);
        self.oscilloscope_cycles = take_cycles(key, value, self.oscilloscope_cycles);
        self.loudness_timeline = take_flag(key, value, "timeline", self.loudness_timeline);
        self.loudness_histogram = take_flag(key, value, "hist", self.loudness_histogram);
        self.loudness_overs = take_flag(key, value, "overs", self.loudness_overs);
        self.target_lufs = take_target(key, value, self.target_lufs);
    }

    /// RT-safe scalar parser. Unknown or malformed values retain defaults.
    pub fn parse(block: &[u8]) -> (settings: Self)
        ensures
            settings.reflects(
                crate::settings::fields::fields(block@, 0),
                version_of(crate::settings::fields::fields(block@, 0)),
            ),
            settings.in_range(),
    {
        let ghost listed = crate::settings::fields::fields(block@, 0);
        let version: u8 = state_version(block);
        let mut settings = RuntimeSettings::default();
        let ghost mut done: Listed = Seq::empty();
        let mut cursor: usize = 0;
        let mut more = true;
        while more
            invariant
                cursor <= block@.len(),
                listed == done + (if more {
                    crate::settings::fields::fields(block@, cursor as int)
                } else {
                    Seq::empty()
                }),
                settings.reflects(done, version),
            decreases block@.len() - cursor + (if more { 1int } else { 0int }),
        {
            let ghost before = settings;
            match next_field(block, &mut cursor) {
                Some((key, value)) => {
                    settings.apply(key, value, version);
                    proof {
                        let field = (key@, value@);
                        settings_follow(before, settings, done, field, version);
                        assert(listed =~= done.push(field) + crate::settings::fields::fields(
                            block@,
                            cursor as int,
                        ));
                        done = done.push(field);
                    }
                },
                None => {
                    more = false;
                },
            }
        }
        assert(done =~= listed);
        proof {
            parsed_settings_are_in_range(settings, listed, version);
        }
        settings
    }

    /// Whether the module at a place is on. There is nothing past the last one.
    pub fn module_enabled(&self, module: usize) -> (enabled: bool)
        ensures
            enabled == (module < 9 && self.enabled@[module as int]),
    {
        if module < MODULE_COUNT {
            self.enabled[module]
        } else {
            false
        }
    }

    pub fn fft_index(&self) -> (index: usize)
        ensures
            index == self.fft_size.position(),
    {
        self.fft_size.index()
    }

    pub fn fft_frames(&self) -> (frames: usize)
        ensures
            frames == self.fft_size.frame_count(),
    {
        self.fft_size.frames()
    }
}

/// Sets the flags that an `m` value reaches.
pub fn parse_enabled(value: &[u8], version: u8, enabled: &mut [bool; 9])
    ensures
        final(enabled)@ == flags_after(value@, version, old(enabled)@),
{
    let length: usize = if version >= STATE_VERSION {
        MODULE_COUNT
    } else {
        LEGACY_MODULE_COUNT
    };
    let ghost before = enabled@;
    let mut index: usize = 0;
    while index < length && index < value.len()
        invariant
            length == flag_count(version),
            index <= length,
            index <= value@.len(),
            enabled@.len() == 9,
            before.len() == 9,
            forall|i: int|
                0 <= i < 9 ==> #[trigger] enabled@[i] == (if i < index {
                    flag_after(value@[i], before[i])
                } else {
                    before[i]
                }),
        decreases length - index,
    {
        if value[index] == 0x31 {
            enabled[index] = true;
        } else if value[index] == 0x30 {
            enabled[index] = false;
        }
        index = index + 1;
    }
    assert(enabled@ =~= flags_after(value@, version, before));
}

/// One more field changes each setting as that field alone does.
proof fn settings_follow(
    before: RuntimeSettings,
    after: RuntimeSettings,
    listed: Listed,
    field: (Seq<u8>, Seq<u8>),
    version: u8,
)
    requires
        before.reflects(listed, version),
        after.follows(before, field, version),
    ensures
        after.reflects(listed.push(field), version),
{
    assert(listed.push(field).drop_last() =~= listed);
    assert(listed.push(field).last() == field);
}

/// A setting keeps what holds of its default and of every value that is read
/// for it.
proof fn chosen_keeps<T>(
    listed: Listed,
    key: Seq<char>,
    read: spec_fn(Seq<u8>) -> Option<T>,
    default: T,
    holds: spec_fn(T) -> bool,
)
    requires
        holds(default),
        forall|value: Seq<u8>|
            (#[trigger] read(value)) is Some ==> holds(read(value)->0),
    ensures
        holds(chosen(listed, key, read, default)),
    decreases listed.len(),
{
    if listed.len() > 0 {
        chosen_keeps(listed.drop_last(), key, read, default, holds);
    }
}

/// Whatever a state block holds, the numbers read from it lie in the ranges
/// that the meters take.
pub proof fn parsed_settings_are_in_range(settings: RuntimeSettings, listed: Listed, version: u8)
    requires
        settings.reflects(listed, version),
    ensures
        settings.in_range(),
{
    chosen_keeps(listed, "trim"@, ranged(-24, 24), 0, |trim: i8| -24 <= trim <= 24);
    chosen_keeps(listed, "smooth"@, percentage(), 90, |smoothing: u8| smoothing <= 100);
    chosen_keeps(listed, "tilt"@, ranged(-18, 18), 0, |tilt: i8| -18 <= tilt <= 18);
    chosen_keeps(listed, "cal"@, ranged(-36, -6), DEFAULT_CALIBRATION, |level: i8| -36 <= level <= -6);
    chosen_keeps(listed, "target"@, target(), DEFAULT_TARGET, |lufs: i8| is_target(lufs));
}

/// A setting whose key no field carries, or whose values cannot be read, keeps
/// its default.
pub proof fn unread_setting_keeps_its_default<T>(
    listed: Listed,
    key: Seq<char>,
    read: spec_fn(Seq<u8>) -> Option<T>,
    default: T,
)
    requires
        forall|i: int|
            0 <= i < listed.len() && (#[trigger] listed[i]).0 == vstd::utf8::encode_utf8(key)
                ==> read(listed[i].1) is None,
    ensures
        chosen(listed, key, read, default) == default,
    decreases listed.len(),
{
    if listed.len() > 0 {
        let shorter = listed.drop_last();
        assert forall|i: int|
            0 <= i < shorter.len() && (#[trigger] shorter[i]).0 == vstd::utf8::encode_utf8(
                key,
            ) implies read(shorter[i].1) is None by {
            assert(shorter[i] == listed[i]);
        }
        unread_setting_keeps_its_default(shorter, key, read, default);
    }
}

/// The last readable value under a key is the one that counts, whatever the
/// fields in front of it and whatever unreadable ones come behind it.
pub proof fn last_readable_value_counts<T>(
    listed: Listed,
    place: int,
    key: Seq<char>,
    read: spec_fn(Seq<u8>) -> Option<T>,
    default: T,
)
    requires
        0 <= place < listed.len(),
        listed[place].0 == vstd::utf8::encode_utf8(key),
        read(listed[place].1) is Some,
        forall|i: int|
            place < i < listed.len() && (#[trigger] listed[i]).0 == vstd::utf8::encode_utf8(key)
                ==> read(listed[i].1) is None,
    ensures
        chosen(listed, key, read, default) == read(listed[place].1)->0,
    decreases listed.len(),
{
    if place < listed.len() - 1 {
        let shorter = listed.drop_last();
        assert forall|i: int|
            place < i < shorter.len() && (#[trigger] shorter[i]).0 == vstd::utf8::encode_utf8(
                key,
            ) implies read(shorter[i].1) is None by {
            assert(shorter[i] == listed[i]);
        }
        assert(listed[listed.len() - 1] == listed.last());
        last_readable_value_counts(shorter, place, key, read, default);
    }
}

/// A module that no `m` value names with `0` or `1` keeps its default.
pub proof fn unread_flag_keeps_its_default(listed: Listed, version: u8, module: int)
    requires
        0 <= module < 9,
        forall|i: int|
            0 <= i < listed.len() && (#[trigger] listed[i]).0 == vstd::utf8::encode_utf8("m"@)
                && module < listed[i].1.len() && module < flag_count(version)
                ==> listed[i].1[module] != 0x30 && listed[i].1[module] != 0x31,
    ensures
        chosen_flags(listed, version)[module] == default_enabled()[module],
    decreases listed.len(),
{
    if listed.len() > 0 {
        let shorter = listed.drop_last();
        assert forall|i: int|
            0 <= i < shorter.len() && (#[trigger] shorter[i]).0 == vstd::utf8::encode_utf8("m"@)
                && module < shorter[i].1.len() && module < flag_count(
                version,
            ) implies shorter[i].1[module] != 0x30 && shorter[i].1[module] != 0x31 by {
            assert(shorter[i] == listed[i]);
        }
        assert(listed[listed.len() - 1] == listed.last());
        unread_flag_keeps_its_default(shorter, version, module);
    }
}

/// A block of an older version says nothing of the two newest modules: they
/// keep their default, which is on.
pub proof fn legacy_blocks_keep_new_modules_on(listed: Listed, version: u8)
    requires
        version < STATE_VERSION,
    ensures
        chosen_flags(listed, version)[7],
        chosen_flags(listed, version)[8],
    decreases listed.len(),
{
    if listed.len() > 0 {
        legacy_blocks_keep_new_modules_on(listed.drop_last(), version);
    }
}

/// What one more field makes of a setting.
proof fn one_more_field<T>(
    listed: Listed,
    field: (Seq<u8>, Seq<u8>),
    key: Seq<char>,
    read: spec_fn(Seq<u8>) -> Option<T>,
    default: T,
)
    ensures
        chosen(listed.push(field), key, read, default) == updated(
            field,
            key,
            read,
            chosen(listed, key, read, default),
        ),
{
    assert(listed.push(field).drop_last() =~= listed);
}

/// A number that is written behind everything else is taken where it is one that the
/// setting offers: gain and tilt in decibels, smoothing in hundredths, the needle's
/// reference level, and the five loudness targets.
pub proof fn numbers_on_offer_are_taken(
    settings: RuntimeSettings,
    listed: Listed,
    version: u8,
    key: Seq<char>,
    value: Seq<u8>,
    number: int,
)
    requires
        settings.reflects(listed.push((vstd::utf8::encode_utf8(key), value)), version),
        crate::settings::fields::number_value(value) == Some(number),
    ensures
        key == "trim"@ && -24 <= number <= 24 ==> settings.trim_db == number,
        key == "smooth"@ && 0 <= number <= 100 ==> settings.spectrum_smoothing == number,
        key == "tilt"@ && -18 <= number <= 18 ==> settings.spectrum_tilt_db == number,
        key == "cal"@ && -36 <= number <= -6 ==> settings.vu_calibration == number,
        key == "target"@ && (number == -24 || number == -23 || number == -16 || number == -14
            || number == -9) ==> settings.target_lufs == number,
{
    let field = (vstd::utf8::encode_utf8(key), value);
    one_more_field(listed, field, "trim"@, ranged(-24, 24), 0);
    one_more_field(listed, field, "smooth"@, percentage(), 90);
    one_more_field(listed, field, "tilt"@, ranged(-18, 18), 0);
    one_more_field(listed, field, "cal"@, ranged(-36, -6), DEFAULT_CALIBRATION);
    one_more_field(listed, field, "target"@, target(), DEFAULT_TARGET);
}

/// A choice whose name is written behind everything else is taken.
pub proof fn named_choices_are_taken(
    settings: RuntimeSettings,
    listed: Listed,
    version: u8,
    key: Seq<char>,
    name: Seq<char>,
)
    requires
        settings.reflects(
            listed.push((vstd::utf8::encode_utf8(key), vstd::utf8::encode_utf8(name))),
            version,
        ),
    ensures
        forall|choice: AnalysisSource|
            key == "route"@ && name == #[trigger] choice.label() ==> settings.analysis_source
                == choice,
        forall|choice: SpectrumScale|
            key == "scale"@ && name == #[trigger] choice.label() ==> settings.spectrum_scale
                == choice,
        forall|choice: VuMode|
            key == "vu"@ && name == #[trigger] choice.label() ==> settings.vu_mode == choice,
        forall|choice: OscilloscopeMode|
            key == "osc"@ && name == #[trigger] choice.label() ==> settings.oscilloscope_mode
                == choice,
        forall|choice: OscilloscopeCycles|
            key == "cycles"@ && name == #[trigger] choice.label() ==> settings.oscilloscope_cycles
                == choice,
        forall|choice: FftSize|
            key == "fft"@ && name == crate::text::decimal_text(
                (#[trigger] choice.frame_count()) as nat,
            ) ==> settings.fft_size == choice,
{
    let field = (vstd::utf8::encode_utf8(key), vstd::utf8::encode_utf8(name));
    one_more_field(listed, field, "route"@, source_name(), AnalysisSource::Stereo);
    one_more_field(listed, field, "scale"@, scale_name(), SpectrumScale::Log);
    one_more_field(listed, field, "vu"@, vu_name(), VuMode::Vu);
    one_more_field(listed, field, "osc"@, mode_name(), OscilloscopeMode::Pitch);
    one_more_field(listed, field, "cycles"@, cycles_name(), OscilloscopeCycles::Multi);
    one_more_field(listed, field, "fft"@, fft_name(), FftSize::Fft2048);
    assert forall|choice: AnalysisSource|
        key == "route"@ && name == #[trigger] choice.label() implies settings.analysis_source
        == choice by {
        choice.name_round_trip();
    }
    assert forall|choice: SpectrumScale|
        key == "scale"@ && name == #[trigger] choice.label() implies settings.spectrum_scale
        == choice by {
        choice.name_round_trip();
    }
    assert forall|choice: VuMode| key == "vu"@ && name == #[trigger] choice.label() implies settings.vu_mode
        == choice by {
        choice.name_round_trip();
    }
    assert forall|choice: OscilloscopeMode|
        key == "osc"@ && name == #[trigger] choice.label() implies settings.oscilloscope_mode
        == choice by {
        choice.name_round_trip();
    }
    assert forall|choice: OscilloscopeCycles|
        key == "cycles"@ && name == #[trigger] choice.label() implies settings.oscilloscope_cycles
        == choice by {
        choice.name_round_trip();
    }
    assert forall|choice: FftSize|
        key == "fft"@ && name == crate::text::decimal_text(
            (#[trigger] choice.frame_count()) as nat,
        ) implies settings.fft_size == choice by {
        choice.frames_round_trip();
    }
}

/// A switch that is written behind everything else is taken, as a digit or as a word.
pub proof fn switches_are_taken(
    settings: RuntimeSettings,
    listed: Listed,
    version: u8,
    key: Seq<char>,
    on: bool,
    word: bool,
)
    requires
        settings.reflects(
            listed.push(
                (
                    vstd::utf8::encode_utf8(key),
                    vstd::utf8::encode_utf8(
                        match (on, word) {
                            (true, false) => "1"@,
                            (true, true) => "true"@,
                            (false, false) => "0"@,
                            (false, true) => "false"@,
                        },
                    ),
                ),
            ),
            version,
        ),
    ensures
        key == "hold"@ ==> settings.spectrum_hold == on,
        key == "timeline"@ ==> settings.loudness_timeline == on,
        key == "hist"@ ==> settings.loudness_histogram == on,
        key == "overs"@ ==> settings.loudness_overs == on,
{
    let value = vstd::utf8::encode_utf8(
        match (on, word) {
            (true, false) => "1"@,
            (true, true) => "true"@,
            (false, false) => "0"@,
            (false, true) => "false"@,
        },
    );
    let field = (vstd::utf8::encode_utf8(key), value);
    crate::settings::fields::truth_is_a_digit_or_a_word(value);
    one_more_field(listed, field, "hold"@, flag(), false);
    one_more_field(listed, field, "timeline"@, flag(), true);
    one_more_field(listed, field, "hist"@, flag(), true);
    one_more_field(listed, field, "overs"@, flag(), true);
}

/// The modules that are written behind everything else are on and off as their digits say,
/// each in its place. A block of the second version speaks of all nine, an older one of
/// the first seven.
pub proof fn modules_follow_their_digits(
    settings: RuntimeSettings,
    listed: Listed,
    version: u8,
    value: Seq<u8>,
    module: int,
)
    requires
        settings.reflects(listed.push((vstd::utf8::encode_utf8("m"@), value)), version),
        0 <= module < 9,
        module < value.len(),
        version >= 2 || module < 7,
    ensures
        value[module] == 0x31 ==> settings.enabled@[module],
        value[module] == 0x30 ==> !settings.enabled@[module],
{
    let field = (vstd::utf8::encode_utf8("m"@), value);
    assert(listed.push(field).drop_last() =~= listed);
}

/// What holds where a state says nothing: every module but the visuals is on, both
/// channels are heard as they are, and nothing is held or hidden.
pub proof fn silent_states_have_their_defaults(settings: RuntimeSettings, version: u8)
    requires
        settings.reflects(Seq::empty(), version),
    ensures
        forall|module: int| 0 <= module < 9 ==> #[trigger] settings.enabled@[module] == (module != 6),
        settings.analysis_source == AnalysisSource::Stereo,
        settings.trim_db == 0,
        settings.fft_size.frame_count() == 2048,
        settings.spectrum_scale == SpectrumScale::Log,
        settings.spectrum_smoothing == 90,
        settings.spectrum_tilt_db == 0,
        !settings.spectrum_hold,
        settings.vu_mode == VuMode::Vu,
        settings.vu_calibration == -18,
        settings.oscilloscope_mode == OscilloscopeMode::Pitch,
        settings.oscilloscope_cycles == OscilloscopeCycles::Multi,
        settings.loudness_timeline && settings.loudness_histogram && settings.loudness_overs,
        settings.target_lufs == -14,
{
}

} // verus!
