//! The state that the page keeps: its arrangement, its styles and its slots.
use crate::settings::layout::{order_value, parse_order, parse_widths, widths_value};
use crate::settings::options::{
    BuiltinPreset, Chrome, ColorMap, FpsLimit, OscilloscopeStyle, PointSize, SpectrogramHistory,
    SpectrumStyle, StereoColor, StereoStyle, Theme, WaveformColor, WaveformStyle,
};
use crate::settings::runtime::RuntimeSettings;
use crate::text::{
    characters, find, read_signed, read_unsigned, same_text, signed_value, text_of, trim, trimmed,
    unsigned_value,
};
use vstd::prelude::*;

verus! {

/// How many preset positions the user has.
pub const USER_SLOT_COUNT: usize = 4;

/// The longest model path, in bytes.
pub const MAX_PATH: usize = 4_096;

/// The longest slot content, in bytes.
pub const MAX_SLOT: usize = 8_192;

/// Object zoom bounds, in tenths. The floor keeps the cloud on screen; the
/// ceiling is where a point cloud stops being a car and becomes its points.
pub const OBJECT_ZOOM_MIN: u16 = 5;

/// The closest that the object comes, in tenths.
pub const OBJECT_ZOOM_MAX: u16 = 40;

/// The order of the modules where the state names none.
pub open spec fn default_order() -> Seq<usize> {
    seq![0usize, 7, 1, 2, 3, 8, 4, 5, 6]
}

/// The widths of the modules where the state names none.
pub open spec fn default_widths() -> Seq<u32> {
    seq![150u32, 120, 220, 180, 180, 180, 160, 120, 170]
}

/// A key and a value.
pub type Entry = (Seq<char>, Seq<char>);

/// The entries of a piece of a state block: a piece without a `=` is none, and
/// the key stands in front of the first one.
pub open spec fn piece_entry(piece: Seq<char>) -> Seq<Entry> {
    let equals = crate::text::mark(piece, '=', 0);
    if equals < piece.len() {
        seq![(piece.take(equals), piece.skip(equals + 1))]
    } else {
        Seq::empty()
    }
}

/// The entries of the pieces, in order.
pub open spec fn entries_of(pieces: Seq<Seq<char>>) -> Seq<Entry>
    decreases pieces.len(),
{
    if pieces.len() == 0 {
        Seq::empty()
    } else {
        entries_of(pieces.drop_last()) + piece_entry(pieces.last())
    }
}

/// The entries of a state block: `key=value` pieces with `;` between them.
pub open spec fn entries(block: Seq<char>) -> Seq<Entry> {
    entries_of(crate::text::parts(block, ';', 0))
}

/// What an entry makes of a setting: the value that it gives under the
/// setting's own key, where that value can be read. White space around the key
/// does not count.
#[verifier::opaque]
pub open spec fn updated<T>(
    entry: Entry,
    key: Seq<char>,
    read: spec_fn(Seq<char>) -> Option<T>,
    before: T,
) -> T {
    if trimmed(entry.0) == key {
        match read(entry.1) {
            Some(value) => value,
            None => before,
        }
    } else {
        before
    }
}

/// The setting under a key: the last value in the list that can be read, or
/// the default.
pub open spec fn chosen<T>(
    listed: Seq<Entry>,
    key: Seq<char>,
    read: spec_fn(Seq<char>) -> Option<T>,
    default: T,
) -> T
    decreases listed.len(),
{
    if listed.len() == 0 {
        default
    } else {
        updated(listed.last(), key, read, chosen(listed.drop_last(), key, read, default))
    }
}

/// Whether the text fits in so many bytes and stays on one line.
pub open spec fn is_line(text: Seq<char>, limit: int) -> bool {
    &&& vstd::utf8::encode_utf8(text).len() <= limit
    &&& forall|i: int| 0 <= i < text.len() ==> #[trigger] text[i] != '\n' && text[i] != '\r'
}

/// The slot that a key names: `slot` and a number below four.
pub open spec fn slot_of(key: Seq<char>) -> Option<nat> {
    if key.len() >= 4 && key.take(4) == "slot"@ {
        unsigned_value(key.skip(4), 3)
    } else {
        None
    }
}

/// What an entry makes of the content of a slot.
pub open spec fn slot_updated(entry: Entry, slot: int, before: Seq<char>) -> Seq<char> {
    if slot_of(entry.0) == Some(slot as nat) && is_line(entry.1, MAX_SLOT as int) {
        entry.1
    } else {
        before
    }
}

/// The content of a slot after all the entries.
pub open spec fn chosen_slot(listed: Seq<Entry>, slot: int) -> Seq<char>
    decreases listed.len(),
{
    if listed.len() == 0 {
        Seq::empty()
    } else {
        slot_updated(listed.last(), slot, chosen_slot(listed.drop_last(), slot))
    }
}

/// Reads an order of the modules.
pub open spec fn order_entry() -> spec_fn(Seq<char>) -> Option<Seq<usize>> {
    |value: Seq<char>| order_value(value)
}

/// Reads the widths of the modules.
pub open spec fn widths_entry() -> spec_fn(Seq<char>) -> Option<Seq<u32>> {
    |value: Seq<char>| widths_value(value)
}

/// Reads a model path.
pub open spec fn path_entry() -> spec_fn(Seq<char>) -> Option<Seq<char>> {
    |value: Seq<char>|
        if is_line(value, MAX_PATH as int) {
            Some(value)
        } else {
            None
        }
}

/// Reads `1` as true and everything else as false.
pub open spec fn one_entry() -> spec_fn(Seq<char>) -> Option<bool> {
    |value: Seq<char>| Some(value == "1"@)
}

/// Reads a whole factor that the page offers.
pub open spec fn gain_entry() -> spec_fn(Seq<char>) -> Option<u8> {
    |value: Seq<char>| gain_value(value)
}

/// The factor that the text writes: one of the three that the page offers.
pub open spec fn gain_value(value: Seq<char>) -> Option<u8> {
    if value == "1"@ {
        Some(1u8)
    } else if value == "2"@ {
        Some(2u8)
    } else if value == "4"@ {
        Some(4u8)
    } else {
        None
    }
}

/// Reads a speed from 1 to 4.
pub open spec fn speed_entry() -> spec_fn(Seq<char>) -> Option<u8> {
    |value: Seq<char>|
        match unsigned_value(value, 4) {
            Some(speed) => if speed >= 1 {
                Some(speed as u8)
            } else {
                None
            },
            None => None,
        }
}

/// Reads a zoom in tenths.
pub open spec fn zoom_entry() -> spec_fn(Seq<char>) -> Option<u16> {
    |value: Seq<char>|
        match unsigned_value(value, OBJECT_ZOOM_MAX as nat) {
            Some(zoom) => if zoom >= OBJECT_ZOOM_MIN {
                Some(zoom as u16)
            } else {
                None
            },
            None => None,
        }
}

/// Reads an angle in tenths of a degree, up to the limit on either side.
pub open spec fn angle_entry(limit: int) -> spec_fn(Seq<char>) -> Option<i16> {
    |value: Seq<char>|
        match signed_value(value, i16::MAX as nat) {
            Some(angle) => if -limit <= angle <= limit {
                Some(angle as i16)
            } else {
                None
            },
            None => None,
        }
}

/// Reads the name of a `Theme`.
pub open spec fn theme_entry() -> spec_fn(Seq<char>) -> Option<Theme> {
    |value: Seq<char>| Theme::named(value)
}

/// Reads the name of a `ColorMap`.
pub open spec fn color_map_entry() -> spec_fn(Seq<char>) -> Option<ColorMap> {
    |value: Seq<char>| ColorMap::named(value)
}

/// Reads the name of a `FpsLimit`.
pub open spec fn fps_limit_entry() -> spec_fn(Seq<char>) -> Option<FpsLimit> {
    |value: Seq<char>| FpsLimit::named(value)
}

/// Reads the name of a `SpectrumStyle`.
pub open spec fn spectrum_style_entry() -> spec_fn(Seq<char>) -> Option<SpectrumStyle> {
    |value: Seq<char>| SpectrumStyle::named(value)
}

/// Reads the name of a `SpectrogramHistory`.
pub open spec fn spectrogram_history_entry() -> spec_fn(Seq<char>) -> Option<SpectrogramHistory> {
    |value: Seq<char>| SpectrogramHistory::named(value)
}

/// Reads the name of a `StereoStyle`.
pub open spec fn stereo_style_entry() -> spec_fn(Seq<char>) -> Option<StereoStyle> {
    |value: Seq<char>| StereoStyle::named(value)
}

/// Reads the name of a `StereoColor`.
pub open spec fn stereo_color_entry() -> spec_fn(Seq<char>) -> Option<StereoColor> {
    |value: Seq<char>| StereoColor::named(value)
}

/// Reads the name of a `PointSize`.
pub open spec fn point_size_entry() -> spec_fn(Seq<char>) -> Option<PointSize> {
    |value: Seq<char>| PointSize::named(value)
}

/// Reads the name of a `WaveformColor`.
pub open spec fn waveform_color_entry() -> spec_fn(Seq<char>) -> Option<WaveformColor> {
    |value: Seq<char>| WaveformColor::named(value)
}

/// Reads the name of a `WaveformStyle`.
pub open spec fn waveform_style_entry() -> spec_fn(Seq<char>) -> Option<WaveformStyle> {
    |value: Seq<char>| WaveformStyle::named(value)
}

/// Reads the name of a `OscilloscopeStyle`.
pub open spec fn oscilloscope_style_entry() -> spec_fn(Seq<char>) -> Option<OscilloscopeStyle> {
    |value: Seq<char>| OscilloscopeStyle::named(value)
}

/// Reads the name of a `Chrome`.
pub open spec fn chrome_entry() -> spec_fn(Seq<char>) -> Option<Chrome> {
    |value: Seq<char>| Chrome::named(value)
}

/// Reads the name of a `BuiltinPreset`.
pub open spec fn builtin_preset_entry() -> spec_fn(Seq<char>) -> Option<BuiltinPreset> {
    |value: Seq<char>| BuiltinPreset::named(value)
}

/// The palette after one entry.
fn take_theme(key: &[char], name: &str, value: &str, before: Theme) -> (after: Theme)
    requires
        name@ == trimmed(key@),
    ensures
        after == updated((key@, value@), "theme"@, theme_entry(), before),
{
    reveal(updated);
    if same_text(name, "theme") {
        if let Some(choice) = Theme::parse(value) {
            return choice;
        }
    }
    before
}

/// The spectrogram's colours after one entry.
fn take_color_map(key: &[char], name: &str, value: &str, before: ColorMap) -> (after: ColorMap)
    requires
        name@ == trimmed(key@),
    ensures
        after == updated((key@, value@), "map"@, color_map_entry(), before),
{
    reveal(updated);
    if same_text(name, "map") {
        if let Some(choice) = ColorMap::parse(value) {
            return choice;
        }
    }
    before
}

/// The redraw limit after one entry.
fn take_fps_limit(key: &[char], name: &str, value: &str, before: FpsLimit) -> (after: FpsLimit)
    requires
        name@ == trimmed(key@),
    ensures
        after == updated((key@, value@), "fps"@, fps_limit_entry(), before),
{
    reveal(updated);
    if same_text(name, "fps") {
        if let Some(choice) = FpsLimit::parse(value) {
            return choice;
        }
    }
    before
}

/// The spectrum's style after one entry.
fn take_spectrum_style(key: &[char], name: &str, value: &str, before: SpectrumStyle) -> (after: SpectrumStyle)
    requires
        name@ == trimmed(key@),
    ensures
        after == updated((key@, value@), "style"@, spectrum_style_entry(), before),
{
    reveal(updated);
    if same_text(name, "style") {
        if let Some(choice) = SpectrumStyle::parse(value) {
            return choice;
        }
    }
    before
}

/// The spectrogram's memory after one entry.
fn take_spectrogram_history(key: &[char], name: &str, value: &str, before: SpectrogramHistory) -> (after: SpectrogramHistory)
    requires
        name@ == trimmed(key@),
    ensures
        after == updated((key@, value@), "sphist"@, spectrogram_history_entry(), before),
{
    reveal(updated);
    if same_text(name, "sphist") {
        if let Some(choice) = SpectrogramHistory::parse(value) {
            return choice;
        }
    }
    before
}

/// The stereo panel's style after one entry.
fn take_stereo_style(key: &[char], name: &str, value: &str, before: StereoStyle) -> (after: StereoStyle)
    requires
        name@ == trimmed(key@),
    ensures
        after == updated((key@, value@), "stereo"@, stereo_style_entry(), before),
{
    reveal(updated);
    if same_text(name, "stereo") {
        if let Some(choice) = StereoStyle::parse(value) {
            return choice;
        }
    }
    before
}

/// The stereo panel's colour after one entry.
fn take_stereo_color(key: &[char], name: &str, value: &str, before: StereoColor) -> (after: StereoColor)
    requires
        name@ == trimmed(key@),
    ensures
        after == updated((key@, value@), "stereocolor"@, stereo_color_entry(), before),
{
    reveal(updated);
    if same_text(name, "stereocolor") {
        if let Some(choice) = StereoColor::parse(value) {
            return choice;
        }
    }
    before
}

/// The point size after one entry.
fn take_point_size(key: &[char], name: &str, value: &str, before: PointSize) -> (after: PointSize)
    requires
        name@ == trimmed(key@),
    ensures
        after == updated((key@, value@), "points"@, point_size_entry(), before),
{
    reveal(updated);
    if same_text(name, "points") {
        if let Some(choice) = PointSize::parse(value) {
            return choice;
        }
    }
    before
}

/// The waveform's colour after one entry.
fn take_waveform_color(key: &[char], name: &str, value: &str, before: WaveformColor) -> (after: WaveformColor)
    requires
        name@ == trimmed(key@),
    ensures
        after == updated((key@, value@), "wavecolor"@, waveform_color_entry(), before),
{
    reveal(updated);
    if same_text(name, "wavecolor") {
        if let Some(choice) = WaveformColor::parse(value) {
            return choice;
        }
    }
    before
}

/// The waveform's style after one entry.
fn take_waveform_style(key: &[char], name: &str, value: &str, before: WaveformStyle) -> (after: WaveformStyle)
    requires
        name@ == trimmed(key@),
    ensures
        after == updated((key@, value@), "wavestyle"@, waveform_style_entry(), before),
{
    reveal(updated);
    if same_text(name, "wavestyle") {
        if let Some(choice) = WaveformStyle::parse(value) {
            return choice;
        }
    }
    before
}

/// The oscilloscope's style after one entry.
fn take_oscilloscope_style(key: &[char], name: &str, value: &str, before: OscilloscopeStyle) -> (after: OscilloscopeStyle)
    requires
        name@ == trimmed(key@),
    ensures
        after == updated((key@, value@), "oscstyle"@, oscilloscope_style_entry(), before),
{
    reveal(updated);
    if same_text(name, "oscstyle") {
        if let Some(choice) = OscilloscopeStyle::parse(value) {
            return choice;
        }
    }
    before
}

/// The furniture after one entry.
fn take_chrome(key: &[char], name: &str, value: &str, before: Chrome) -> (after: Chrome)
    requires
        name@ == trimmed(key@),
    ensures
        after == updated((key@, value@), "chrome"@, chrome_entry(), before),
{
    reveal(updated);
    if same_text(name, "chrome") {
        if let Some(choice) = Chrome::parse(value) {
            return choice;
        }
    }
    before
}

/// The arrangement after one entry.
fn take_builtin_preset(key: &[char], name: &str, value: &str, before: BuiltinPreset) -> (after: BuiltinPreset)
    requires
        name@ == trimmed(key@),
    ensures
        after == updated((key@, value@), "preset"@, builtin_preset_entry(), before),
{
    reveal(updated);
    if same_text(name, "preset") {
        if let Some(choice) = BuiltinPreset::parse(value) {
            return choice;
        }
    }
    before
}

/// A flag after one entry.
fn take_one(key: &[char], name: &str, value: &str, own: &str, before: bool) -> (after: bool)
    requires
        name@ == trimmed(key@),
    ensures
        after == updated((key@, value@), own@, one_entry(), before),
{
    reveal(updated);
    if same_text(name, own) {
        return same_text(value, "1");
    }
    before
}

/// A whole factor after one entry.
fn take_gain(key: &[char], name: &str, value: &str, own: &str, before: u8) -> (after: u8)
    requires
        name@ == trimmed(key@),
    ensures
        after == updated((key@, value@), own@, gain_entry(), before),
{
    reveal(updated);
    if same_text(name, own) {
        if let Some(gain) = parse_gain(value) {
            return gain;
        }
    }
    before
}

/// Amplitude zoom, as one of the three whole factors the page offers. Written
/// as a whitelist rather than a range because a 3x waveform is a slider the
/// page does not have.
pub fn parse_gain(value: &str) -> (gain: Option<u8>)
    ensures
        gain == gain_value(value@),
{
    if same_text(value, "1") {
        Some(1)
    } else if same_text(value, "2") {
        Some(2)
    } else if same_text(value, "4") {
        Some(4)
    } else {
        None
    }
}

/// The speed after one entry.
fn take_speed(key: &[char], name: &str, value: &str, before: u8) -> (after: u8)
    requires
        name@ == trimmed(key@),
    ensures
        after == updated((key@, value@), "speed"@, speed_entry(), before),
{
    reveal(updated);
    if same_text(name, "speed") {
        let digits = characters(value);
        if let Some(speed) = read_unsigned(digits.as_slice(), 4) {
            if speed >= 1 {
                return speed as u8;
            }
        }
    }
    before
}

/// The zoom after one entry.
fn take_zoom(key: &[char], name: &str, value: &str, before: u16) -> (after: u16)
    requires
        name@ == trimmed(key@),
    ensures
        after == updated((key@, value@), "oz"@, zoom_entry(), before),
{
    reveal(updated);
    if same_text(name, "oz") {
        let digits = characters(value);
        if let Some(zoom) = read_unsigned(digits.as_slice(), OBJECT_ZOOM_MAX as u64) {
            if zoom >= OBJECT_ZOOM_MIN as u64 {
                return zoom as u16;
            }
        }
    }
    before
}

/// An angle after one entry.
fn take_angle(key: &[char], name: &str, value: &str, own: &str, limit: i16, before: i16) -> (after: i16)
    requires
        name@ == trimmed(key@),
    ensures
        after == updated((key@, value@), own@, angle_entry(limit as int), before),
{
    reveal(updated);
    if same_text(name, own) {
        let digits = characters(value);
        if let Some(angle) = read_signed(digits.as_slice(), 32_767) {
            if -(limit as i128) <= angle && angle <= limit as i128 {
                return angle as i16;
            }
        }
    }
    before
}

/// Whether the text fits in so many bytes and stays on one line.
fn fits_line(text: &str, limit: usize) -> (result: bool)
    ensures
        result == is_line(text@, limit as int),
{
    let bytes = text.as_bytes();
    if bytes.len() > limit {
        return false;
    }
    let letters = characters(text);
    let mut index: usize = 0;
    while index < letters.len()
        invariant
            letters@ == text@,
            index <= letters.len(),
            vstd::utf8::encode_utf8(text@).len() <= limit,
            forall|i: int|
                0 <= i < index ==> #[trigger] text@[i] != '\n' && text@[i] != '\r',
        decreases letters.len() - index,
    {
        if letters[index] == '\n' || letters[index] == '\r' {
            assert(text@[index as int] == letters@[index as int]);
            return false;
        }
        index = index + 1;
    }
    true
}

/// The slot that a key names: `slot` and a number below four.
fn slot_index(key: &[char]) -> (slot: Option<usize>)
    ensures
        slot.is_some() == slot_of(key@).is_some(),
        slot.is_some() ==> slot.unwrap() == slot_of(key@).unwrap() && slot.unwrap() < 4,
{
    proof {
        reveal_strlit("slot");
    }
    if key.len() >= 4 && key[0] == 's' && key[1] == 'l' && key[2] == 'o' && key[3] == 't' {
        assert(key@.take(4) =~= "slot"@);
        let number = vstd::slice::slice_subrange(key, 4, key.len());
        assert(number@ =~= key@.skip(4));
        match read_unsigned(number, 3) {
            Some(slot) => Some(slot as usize),
            None => None,
        }
    } else {
        proof {
            if key@.len() >= 4 && key@.take(4) == "slot"@ {
                assert(key@[0] == key@.take(4)[0]);
                assert(key@[1] == key@.take(4)[1]);
                assert(key@[2] == key@.take(4)[2]);
                assert(key@[3] == key@.take(4)[3]);
            }
        }
        None
    }
}

/// The order after one entry.
fn take_order(key: &[char], name: &str, value: &str, before: [usize; 9]) -> (after: [usize; 9])
    requires
        name@ == trimmed(key@),
    ensures
        after@ == updated((key@, value@), "o"@, order_entry(), before@),
{
    reveal(updated);
    if same_text(name, "o") {
        if let Some(order) = parse_order(value) {
            return order;
        }
    }
    before
}

/// The widths after one entry.
fn take_widths(key: &[char], name: &str, value: &str, before: [u32; 9]) -> (after: [u32; 9])
    requires
        name@ == trimmed(key@),
    ensures
        after@ == updated((key@, value@), "w"@, widths_entry(), before@),
{
    reveal(updated);
    if same_text(name, "w") {
        if let Some(widths) = parse_widths(value) {
            return widths;
        }
    }
    before
}

/// Takes the model path of one entry in.
fn take_model(key: &[char], name: &str, value: &str, model: &mut String)
    requires
        name@ == trimmed(key@),
    ensures
        final(model)@ == updated((key@, value@), "model"@, path_entry(), old(model)@),
{
    reveal(updated);
    if same_text(name, "model") && fits_line(value, MAX_PATH) {
        *model = String::from_str(value);
    }
}

/// Takes the slot content of one entry in.
fn take_slot(key: &[char], value: &str, slots: &mut [String; 4])
    ensures
        forall|slot: int|
            0 <= slot < 4 ==> (#[trigger] final(slots)@[slot])@ == slot_updated(
                (key@, value@),
                slot,
                old(slots)@[slot]@,
            ),
{
    if let Some(slot) = slot_index(key) {
        if fits_line(value, MAX_SLOT) {
            slots[slot] = String::from_str(value);
        }
    }
}

/// Main-thread state. Slots contain page-encoded snapshots for four user
/// preset positions. They never cross into the audio thread.
#[derive(Clone, Debug, PartialEq, Eq)]
pub struct Settings {
    pub runtime: RuntimeSettings,
    pub order: [usize; 9],
    pub widths: [u32; 9],
    pub model: String,
    pub theme: Theme,
    pub color_map: ColorMap,
    pub fps_limit: FpsLimit,
    pub spectrum_style: SpectrumStyle,
    pub spectrogram_history: SpectrogramHistory,
    pub spectrogram_speed: u8,
    pub spectrogram_loop: bool,
    pub spectrogram_timecode: bool,
    pub stereo_style: StereoStyle,
    pub stereo_color: StereoColor,
    pub point_size: PointSize,
    pub waveform_color: WaveformColor,
    pub waveform_style: WaveformStyle,
    /// Amplitude zoom for the waveform, as a whole factor. Quiet material is
    /// a flat line at 1x and a shape at 4x, and neither reading is wrong.
    pub waveform_gain: u8,
    pub oscilloscope_style: OscilloscopeStyle,
    pub oscilloscope_gain: u8,
    /// The spectrum's slow-release peak trace.
    pub spectrum_trace: bool,
    /// Value readout under the pointer, on every panel that has one.
    pub hover_readout: bool,
    pub chrome: Chrome,
    pub object_yaw_tenths: i16,
    pub object_pitch_tenths: i16,
    /// Object camera zoom in tenths. Clamped rather than free: past a point
    /// the cloud is a handful of points filling the panel.
    pub object_zoom_tenths: u16,
    pub object_spin: bool,
    pub preset: BuiltinPreset,
    pub slots: [String; 4],
}

impl Default for Settings {
    fn default() -> (settings: Self)
        ensures
            settings.reflects(Seq::empty()),
            settings.runtime.reflects(Seq::empty(), crate::settings::runtime::STATE_VERSION),
    {
        let settings = Settings {
            runtime: RuntimeSettings::default(),
            order: [0, 7, 1, 2, 3, 8, 4, 5, 6],
            widths: [150, 120, 220, 180, 180, 180, 160, 120, 170],
            model: String::new(),
            theme: Theme::Midnight,
            color_map: ColorMap::Neta,
            fps_limit: FpsLimit::Vsync,
            spectrum_style: SpectrumStyle::Both,
            spectrogram_history: SpectrogramHistory::Fast,
            spectrogram_speed: 4,
            spectrogram_loop: true,
            spectrogram_timecode: false,
            stereo_style: StereoStyle::Linear,
            stereo_color: StereoColor::Static,
            point_size: PointSize::Auto,
            waveform_color: WaveformColor::Pink,
            waveform_style: WaveformStyle::Band,
            waveform_gain: 1,
            oscilloscope_style: OscilloscopeStyle::Overlay,
            oscilloscope_gain: 1,
            spectrum_trace: true,
            hover_readout: true,
            chrome: Chrome::Bare,
            object_yaw_tenths: 0,
            object_pitch_tenths: 0,
            object_zoom_tenths: 10,
            object_spin: true,
            preset: BuiltinPreset::Default,
            slots: [String::new(), String::new(), String::new(), String::new()],
        };
        assert(settings.order@ =~= default_order());
        assert(settings.widths@ =~= default_widths());
        settings
    }
}

impl Settings {
    /// Whether every setting of the page is what the entries make it: the last
    /// readable value under its key, or its default.
    pub open spec fn reflects(self, listed: Seq<Entry>) -> bool {
        &&& self.order@ == chosen(listed, "o"@, order_entry(), default_order())
        &&& self.widths@ == chosen(listed, "w"@, widths_entry(), default_widths())
        &&& self.model@ == chosen(listed, "model"@, path_entry(), Seq::empty())
        &&& self.theme == chosen(listed, "theme"@, theme_entry(), Theme::Midnight)
        &&& self.color_map == chosen(listed, "map"@, color_map_entry(), ColorMap::Neta)
        &&& self.fps_limit == chosen(listed, "fps"@, fps_limit_entry(), FpsLimit::Vsync)
        &&& self.spectrum_style == chosen(
            listed,
            "style"@,
            spectrum_style_entry(),
            SpectrumStyle::Both,
        )
        &&& self.spectrogram_history == chosen(
            listed,
            "sphist"@,
            spectrogram_history_entry(),
            SpectrogramHistory::Fast,
        )
        &&& self.spectrogram_speed == chosen(listed, "speed"@, speed_entry(), 4u8)
        &&& self.spectrogram_loop == chosen(listed, "loop"@, one_entry(), true)
        &&& self.spectrogram_timecode == chosen(listed, "timecode"@, one_entry(), false)
        &&& self.stereo_style == chosen(
            listed,
            "stereo"@,
            stereo_style_entry(),
            StereoStyle::Linear,
        )
        &&& self.stereo_color == chosen(
            listed,
            "stereocolor"@,
            stereo_color_entry(),
            StereoColor::Static,
        )
        &&& self.point_size == chosen(listed, "points"@, point_size_entry(), PointSize::Auto)
        &&& self.waveform_color == chosen(
            listed,
            "wavecolor"@,
            waveform_color_entry(),
            WaveformColor::Pink,
        )
        &&& self.waveform_style == chosen(
            listed,
            "wavestyle"@,
            waveform_style_entry(),
            WaveformStyle::Band,
        )
        &&& self.waveform_gain == chosen(listed, "wavegain"@, gain_entry(), 1u8)
        &&& self.oscilloscope_style == chosen(
            listed,
            "oscstyle"@,
            oscilloscope_style_entry(),
            OscilloscopeStyle::Overlay,
        )
        &&& self.oscilloscope_gain == chosen(listed, "oscgain"@, gain_entry(), 1u8)
        &&& self.spectrum_trace == chosen(listed, "trace"@, one_entry(), true)
        &&& self.hover_readout == chosen(listed, "hover"@, one_entry(), true)
        &&& self.chrome == chosen(listed, "chrome"@, chrome_entry(), Chrome::Bare)
        &&& self.object_yaw_tenths == chosen(listed, "oy"@, angle_entry(3600), 0i16)
        &&& self.object_pitch_tenths == chosen(listed, "op"@, angle_entry(850), 0i16)
        &&& self.object_zoom_tenths == chosen(listed, "oz"@, zoom_entry(), 10u16)
        &&& self.object_spin == chosen(listed, "ospin"@, one_entry(), true)
        &&& self.preset == chosen(listed, "preset"@, builtin_preset_entry(), BuiltinPreset::Default)
        &&& forall|slot: int|
            0 <= slot < 4 ==> (#[trigger] self.slots@[slot])@ == chosen_slot(listed, slot)
    }

    /// Whether one entry leads from `before` to these settings.
    pub open spec fn follows(self, before: Self, entry: Entry) -> bool {
        &&& self.runtime == before.runtime
        &&& self.order@ == updated(entry, "o"@, order_entry(), before.order@)
        &&& self.widths@ == updated(entry, "w"@, widths_entry(), before.widths@)
        &&& self.model@ == updated(entry, "model"@, path_entry(), before.model@)
        &&& self.theme == updated(entry, "theme"@, theme_entry(), before.theme)
        &&& self.color_map == updated(entry, "map"@, color_map_entry(), before.color_map)
        &&& self.fps_limit == updated(entry, "fps"@, fps_limit_entry(), before.fps_limit)
        &&& self.spectrum_style == updated(
            entry,
            "style"@,
            spectrum_style_entry(),
            before.spectrum_style,
        )
        &&& self.spectrogram_history == updated(
            entry,
            "sphist"@,
            spectrogram_history_entry(),
            before.spectrogram_history,
        )
        &&& self.spectrogram_speed == updated(
            entry,
            "speed"@,
            speed_entry(),
            before.spectrogram_speed,
        )
        &&& self.spectrogram_loop == updated(entry, "loop"@, one_entry(), before.spectrogram_loop)
        &&& self.spectrogram_timecode == updated(
            entry,
            "timecode"@,
            one_entry(),
            before.spectrogram_timecode,
        )
        &&& self.stereo_style == updated(
            entry,
            "stereo"@,
            stereo_style_entry(),
            before.stereo_style,
        )
        &&& self.stereo_color == updated(
            entry,
            "stereocolor"@,
            stereo_color_entry(),
            before.stereo_color,
        )
        &&& self.point_size == updated(entry, "points"@, point_size_entry(), before.point_size)
        &&& self.waveform_color == updated(
            entry,
            "wavecolor"@,
            waveform_color_entry(),
            before.waveform_color,
        )
        &&& self.waveform_style == updated(
            entry,
            "wavestyle"@,
            waveform_style_entry(),
            before.waveform_style,
        )
        &&& self.waveform_gain == updated(entry, "wavegain"@, gain_entry(), before.waveform_gain)
        &&& self.oscilloscope_style == updated(
            entry,
            "oscstyle"@,
            oscilloscope_style_entry(),
            before.oscilloscope_style,
        )
        &&& self.oscilloscope_gain == updated(
            entry,
            "oscgain"@,
            gain_entry(),
            before.oscilloscope_gain,
        )
        &&& self.spectrum_trace == updated(entry, "trace"@, one_entry(), before.spectrum_trace)
        &&& self.hover_readout == updated(entry, "hover"@, one_entry(), before.hover_readout)
        &&& self.chrome == updated(entry, "chrome"@, chrome_entry(), before.chrome)
        &&& self.object_yaw_tenths == updated(
            entry,
            "oy"@,
            angle_entry(3600),
            before.object_yaw_tenths,
        )
        &&& self.object_pitch_tenths == updated(
            entry,
            "op"@,
            angle_entry(850),
            before.object_pitch_tenths,
        )
        &&& self.object_zoom_tenths == updated(
            entry,
            "oz"@,
            zoom_entry(),
            before.object_zoom_tenths,
        )
        &&& self.object_spin == updated(entry, "ospin"@, one_entry(), before.object_spin)
        &&& self.preset == updated(entry, "preset"@, builtin_preset_entry(), before.preset)
        &&& forall|slot: int|
            0 <= slot < 4 ==> (#[trigger] self.slots@[slot])@ == slot_updated(
                entry,
                slot,
                before.slots@[slot]@,
            )
    }

    /// Takes one entry of a state block in.
    fn apply(&mut self, key: &[char], value: &str)
        ensures
            final(self).follows(*old(self), (key@, value@)),
    {
        let named = text_of(trim(key));
        let name = named.as_str();
        self.order = take_order(key, name, value, self.order);
        self.widths = take_widths(key, name, value, self.widths);
        take_model(key, name, value, &mut self.model);
        self.apply_picture(key, name, value);
        self.apply_traces(key, name, value);
        self.apply_view(key, name, value);
        take_slot(key, value, &mut self.slots);
    }

    /// Takes one entry in that may speak of the palette, the spectrum and the spectrogram.
    fn apply_picture(&mut self, key: &[char], name: &str, value: &str)
        requires
            name@ == trimmed(key@),
        ensures
            *final(self) == (Settings {
                theme: updated((key@, value@), "theme"@, theme_entry(), old(self).theme),
                color_map: updated((key@, value@), "map"@, color_map_entry(), old(self).color_map),
                fps_limit: updated((key@, value@), "fps"@, fps_limit_entry(), old(self).fps_limit),
                spectrum_style: updated((key@, value@), "style"@, spectrum_style_entry(), old(self).spectrum_style),
                spectrogram_history: updated((key@, value@), "sphist"@, spectrogram_history_entry(), old(self).spectrogram_history),
                spectrogram_speed: updated((key@, value@), "speed"@, speed_entry(), old(self).spectrogram_speed),
                spectrogram_loop: updated((key@, value@), "loop"@, one_entry(), old(self).spectrogram_loop),
                spectrogram_timecode: updated((key@, value@), "timecode"@, one_entry(), old(self).spectrogram_timecode),
                ..*old(self)
            }),
    {
        self.theme = take_theme(key, name, value, self.theme);
        self.color_map = take_color_map(key, name, value, self.color_map);
        self.fps_limit = take_fps_limit(key, name, value, self.fps_limit);
        self.spectrum_style = take_spectrum_style(key, name, value, self.spectrum_style);
        self.spectrogram_history = take_spectrogram_history(key, name, value, self.spectrogram_history);
        self.spectrogram_speed = take_speed(key, name, value, self.spectrogram_speed);
        self.spectrogram_loop = take_one(key, name, value, "loop", self.spectrogram_loop);
        self.spectrogram_timecode = take_one(key, name, value, "timecode", self.spectrogram_timecode);
    }

    /// Takes one entry in that may speak of the stereo panel, the waveform and the oscilloscope.
    fn apply_traces(&mut self, key: &[char], name: &str, value: &str)
        requires
            name@ == trimmed(key@),
        ensures
            *final(self) == (Settings {
                stereo_style: updated((key@, value@), "stereo"@, stereo_style_entry(), old(self).stereo_style),
                stereo_color: updated((key@, value@), "stereocolor"@, stereo_color_entry(), old(self).stereo_color),
                point_size: updated((key@, value@), "points"@, point_size_entry(), old(self).point_size),
                waveform_color: updated((key@, value@), "wavecolor"@, waveform_color_entry(), old(self).waveform_color),
                waveform_style: updated((key@, value@), "wavestyle"@, waveform_style_entry(), old(self).waveform_style),
                waveform_gain: updated((key@, value@), "wavegain"@, gain_entry(), old(self).waveform_gain),
                oscilloscope_style: updated((key@, value@), "oscstyle"@, oscilloscope_style_entry(), old(self).oscilloscope_style),
                oscilloscope_gain: updated((key@, value@), "oscgain"@, gain_entry(), old(self).oscilloscope_gain),
                ..*old(self)
            }),
    {
        self.stereo_style = take_stereo_style(key, name, value, self.stereo_style);
        self.stereo_color = take_stereo_color(key, name, value, self.stereo_color);
        self.point_size = take_point_size(key, name, value, self.point_size);
        self.waveform_color = take_waveform_color(key, name, value, self.waveform_color);
        self.waveform_style = take_waveform_style(key, name, value, self.waveform_style);
        self.waveform_gain = take_gain(key, name, value, "wavegain", self.waveform_gain);
        self.oscilloscope_style = take_oscilloscope_style(key, name, value, self.oscilloscope_style);
        self.oscilloscope_gain = take_gain(key, name, value, "oscgain", self.oscilloscope_gain);
    }

    /// Takes one entry in that may speak of the readouts, the object and the arrangement.
    fn apply_view(&mut self, key: &[char], name: &str, value: &str)
        requires
            name@ == trimmed(key@),
        ensures
            *final(self) == (Settings {
                spectrum_trace: updated((key@, value@), "trace"@, one_entry(), old(self).spectrum_trace),
                hover_readout: updated((key@, value@), "hover"@, one_entry(), old(self).hover_readout),
                chrome: updated((key@, value@), "chrome"@, chrome_entry(), old(self).chrome),
                object_yaw_tenths: updated((key@, value@), "oy"@, angle_entry(3600), old(self).object_yaw_tenths),
                object_pitch_tenths: updated((key@, value@), "op"@, angle_entry(850), old(self).object_pitch_tenths),
                object_zoom_tenths: updated((key@, value@), "oz"@, zoom_entry(), old(self).object_zoom_tenths),
                object_spin: updated((key@, value@), "ospin"@, one_entry(), old(self).object_spin),
                preset: updated((key@, value@), "preset"@, builtin_preset_entry(), old(self).preset),
                ..*old(self)
            }),
    {
        self.spectrum_trace = take_one(key, name, value, "trace", self.spectrum_trace);
        self.hover_readout = take_one(key, name, value, "hover", self.hover_readout);
        self.chrome = take_chrome(key, name, value, self.chrome);
        self.object_yaw_tenths = take_angle(key, name, value, "oy", 3600, self.object_yaw_tenths);
        self.object_pitch_tenths = take_angle(key, name, value, "op", 850, self.object_pitch_tenths);
        self.object_zoom_tenths = take_zoom(key, name, value, self.object_zoom_tenths);
        self.object_spin = take_one(key, name, value, "ospin", self.object_spin);
        self.preset = take_builtin_preset(key, name, value, self.preset);
    }

    /// Reads the settings out of a state block. Unknown keys and malformed
    /// values leave the defaults as they are, but for the switches `loop`,
    /// `timecode`, `trace`, `hover` and `ospin`: they are on for `1` and off for
    /// any other value.
    pub fn parse(block: &str) -> (settings: Self)
        ensures
            settings.reflects(entries(block@)),
            settings.runtime.reflects(
                crate::settings::fields::fields(vstd::utf8::encode_utf8(block@), 0),
                crate::settings::fields::version_of(
                    crate::settings::fields::fields(vstd::utf8::encode_utf8(block@), 0),
                ),
            ),
            settings.runtime.in_range(),
            settings.is_valid(),
    {
        let mut settings = Settings::default();
        settings.runtime = RuntimeSettings::parse(block.as_bytes());
        let ghost runtime = settings.runtime;
        let text = characters(block);
        let ghost pieces = crate::text::parts(block@, ';', 0);
        let ghost mut count: int = 0;
        let mut from: usize = 0;
        let mut more = true;
        assert(pieces.skip(0) =~= pieces);
        assert(pieces.take(0) =~= Seq::<Seq<char>>::empty());
        while more
            invariant
                text@ == block@,
                pieces == crate::text::parts(block@, ';', 0),
                from <= text@.len(),
                0 <= count <= pieces.len(),
                more ==> pieces.skip(count) == crate::text::parts(
                    block@,
                    ';',
                    from as int,
                ),
                !more ==> count == pieces.len(),
                settings.reflects(entries_of(pieces.take(count))),
                settings.runtime == runtime,
            decreases text@.len() - from + (if more { 1int } else { 0int }),
        {
            let end: usize = find(text.as_slice(), ';', from);
            let piece = vstd::slice::slice_subrange(text.as_slice(), from, end);
            let ghost rest = crate::text::parts(block@, ';', from as int);
            proof {
                assert(rest.len() > 0);
                assert(rest[0] == piece@);
                assert(pieces[count] == rest[0]);
                assert(pieces.take(count + 1).drop_last() =~= pieces.take(count));
                assert(pieces.take(count + 1).last() == piece@);
            }
            let equals: usize = find(piece, '=', 0);
            if equals < piece.len() {
                let key = vstd::slice::slice_subrange(piece, 0, equals);
                let value = text_of(vstd::slice::slice_subrange(piece, equals + 1, piece.len()));
                assert(key@ =~= piece@.take(equals as int));
                assert(value@ =~= piece@.skip(equals + 1));
                let ghost before = settings;
                settings.apply(key, value.as_str());
                proof {
                    settings_follow(
                        before,
                        settings,
                        entries_of(pieces.take(count)),
                        (key@, value@),
                    );
                    assert(entries_of(pieces.take(count + 1)) =~= entries_of(
                        pieces.take(count),
                    ).push((key@, value@)));
                }
            } else {
                assert(entries_of(pieces.take(count + 1)) =~= entries_of(pieces.take(count)));
            }
            proof {
                assert(pieces.skip(count + 1) =~= rest.skip(1));
                count = count + 1;
            }
            if end < text.len() {
                from = end + 1;
                assert(rest.skip(1) =~= crate::text::parts(block@, ';', from as int));
            } else {
                assert(rest.len() == 1);
                more = false;
            }
        }
        assert(pieces.take(pieces.len() as int) =~= pieces);
        proof {
            parsed_settings_are_valid(settings, entries(block@));
        }
        settings
    }
}

/// One more entry changes each setting as that entry alone does.
proof fn settings_follow(
    before: Settings,
    after: Settings,
    listed: Seq<Entry>,
    entry: Entry,
)
    requires
        before.reflects(listed),
        after.follows(before, entry),
    ensures
        after.reflects(listed.push(entry)),
{
    assert(listed.push(entry).drop_last() =~= listed);
    assert(listed.push(entry).last() == entry);
    assert forall|slot: int| 0 <= slot < 4 implies (#[trigger] after.slots@[slot])@ == chosen_slot(
        listed.push(entry),
        slot,
    ) by {
        assert(before.slots@[slot]@ == chosen_slot(listed, slot));
    }
}

/// A setting keeps what holds of its default and of every value that is read
/// for it.
proof fn chosen_keeps<T>(
    listed: Seq<Entry>,
    key: Seq<char>,
    read: spec_fn(Seq<char>) -> Option<T>,
    default: T,
    holds: spec_fn(T) -> bool,
)
    requires
        holds(default),
        forall|value: Seq<char>| (#[trigger] read(value)) is Some ==> holds(read(value)->0),
    ensures
        holds(chosen(listed, key, read, default)),
    decreases listed.len(),
{
    reveal(updated);
    if listed.len() > 0 {
        chosen_keeps(listed.drop_last(), key, read, default, holds);
    }
}

proof fn slot_keeps_line(listed: Seq<Entry>, slot: int)
    ensures
        is_line(chosen_slot(listed, slot), MAX_SLOT as int),
    decreases listed.len(),
{
    if listed.len() > 0 {
        slot_keeps_line(listed.drop_last(), slot);
    } else {
        assert(vstd::utf8::encode_utf8(Seq::<char>::empty()).len() == 0);
    }
}

/// Whether the sequence names each of the nine modules once.
pub open spec fn is_permutation(order: Seq<usize>) -> bool {
    &&& order.len() == 9
    &&& forall|i: int| 0 <= i < 9 ==> #[trigger] order[i] < 9
    &&& forall|i: int, j: int| 0 <= i < j < 9 ==> order[i] != order[j]
}

/// Whether the sequence gives each of the nine modules a width in bounds.
pub open spec fn are_widths(widths: Seq<u32>) -> bool {
    &&& widths.len() == 9
    &&& forall|i: int|
        0 <= i < 9 ==> crate::settings::layout::MIN_WIDTH <= #[trigger] widths[i]
            <= crate::settings::layout::MAX_WIDTH
}

impl Settings {
    /// Whether the page can show these settings as they are.
    pub open spec fn is_valid(self) -> bool {
        &&& is_permutation(self.order@)
        &&& are_widths(self.widths@)
        &&& is_line(self.model@, MAX_PATH as int)
        &&& 1 <= self.spectrogram_speed <= 4
        &&& self.waveform_gain == 1 || self.waveform_gain == 2 || self.waveform_gain == 4
        &&& self.oscilloscope_gain == 1 || self.oscilloscope_gain == 2 || self.oscilloscope_gain == 4
        &&& OBJECT_ZOOM_MIN <= self.object_zoom_tenths <= OBJECT_ZOOM_MAX
        &&& -3600 <= self.object_yaw_tenths <= 3600
        &&& -850 <= self.object_pitch_tenths <= 850
        &&& forall|slot: int|
            0 <= slot < 4 ==> is_line((#[trigger] self.slots@[slot])@, MAX_SLOT as int)
    }
}

/// Whatever a state block holds, the settings read from it are ones that the
/// page can show: every module has one place and a width in bounds, every
/// number is in range, and no text is too long or breaks its line.
pub proof fn parsed_settings_are_valid(settings: Settings, listed: Seq<Entry>)
    requires
        settings.reflects(listed),
    ensures
        settings.is_valid(),
{
    assert(vstd::utf8::encode_utf8(Seq::<char>::empty()).len() == 0);
    assert forall|text: Seq<char>| (#[trigger] order_entry()(text)) is Some implies is_permutation(
        order_entry()(text)->0,
    ) by {
        crate::settings::layout::orders_are_permutations(text, 0);
    }
    chosen_keeps(
        listed,
        "o"@,
        order_entry(),
        default_order(),
        |order: Seq<usize>| is_permutation(order),
    );
    chosen_keeps(
        listed,
        "w"@,
        widths_entry(),
        default_widths(),
        |widths: Seq<u32>| are_widths(widths),
    );
    chosen_keeps(
        listed,
        "model"@,
        path_entry(),
        Seq::empty(),
        |path: Seq<char>| is_line(path, MAX_PATH as int),
    );
    chosen_keeps(listed, "speed"@, speed_entry(), 4u8, |speed: u8| 1 <= speed <= 4);
    chosen_keeps(
        listed,
        "wavegain"@,
        gain_entry(),
        1u8,
        |gain: u8| gain == 1 || gain == 2 || gain == 4,
    );
    chosen_keeps(
        listed,
        "oscgain"@,
        gain_entry(),
        1u8,
        |gain: u8| gain == 1 || gain == 2 || gain == 4,
    );
    chosen_keeps(
        listed,
        "oz"@,
        zoom_entry(),
        10u16,
        |zoom: u16| OBJECT_ZOOM_MIN <= zoom <= OBJECT_ZOOM_MAX,
    );
    chosen_keeps(listed, "oy"@, angle_entry(3600), 0i16, |angle: i16| -3600 <= angle <= 3600);
    chosen_keeps(listed, "op"@, angle_entry(850), 0i16, |angle: i16| -850 <= angle <= 850);
    assert forall|slot: int| 0 <= slot < 4 implies is_line(
        (#[trigger] settings.slots@[slot])@,
        MAX_SLOT as int,
    ) by {
        slot_keeps_line(listed, slot);
    }
}

/// A setting whose key no entry carries, or whose values cannot be read, keeps
/// its default.
pub proof fn unread_setting_keeps_its_default<T>(
    listed: Seq<Entry>,
    key: Seq<char>,
    read: spec_fn(Seq<char>) -> Option<T>,
    default: T,
)
    requires
        forall|i: int|
            0 <= i < listed.len() && trimmed((#[trigger] listed[i]).0) == key ==> read(
                listed[i].1,
            ) is None,
    ensures
        chosen(listed, key, read, default) == default,
    decreases listed.len(),
{
    reveal(updated);
    if listed.len() > 0 {
        let shorter = listed.drop_last();
        assert forall|i: int|
            0 <= i < shorter.len() && trimmed((#[trigger] shorter[i]).0) == key implies read(
            shorter[i].1,
        ) is None by {
            assert(shorter[i] == listed[i]);
        }
        unread_setting_keeps_its_default(shorter, key, read, default);
    }
}

/// The last readable value under a key is the one that counts, whatever the
/// entries in front of it and whatever unreadable ones come behind it.
pub proof fn last_readable_value_counts<T>(
    listed: Seq<Entry>,
    place: int,
    key: Seq<char>,
    read: spec_fn(Seq<char>) -> Option<T>,
    default: T,
)
    requires
        0 <= place < listed.len(),
        trimmed(listed[place].0) == key,
        read(listed[place].1) is Some,
        forall|i: int|
            place < i < listed.len() && trimmed((#[trigger] listed[i]).0) == key ==> read(
                listed[i].1,
            ) is None,
    ensures
        chosen(listed, key, read, default) == read(listed[place].1)->0,
    decreases listed.len(),
{
    reveal(updated);
    if place < listed.len() - 1 {
        let shorter = listed.drop_last();
        assert forall|i: int|
            place < i < shorter.len() && trimmed((#[trigger] shorter[i]).0) == key implies read(
            shorter[i].1,
        ) is None by {
            assert(shorter[i] == listed[i]);
        }
        assert(listed[listed.len() - 1] == listed.last());
        last_readable_value_counts(shorter, place, key, read, default);
    }
}

/// The entries of a block are what is written in it: pieces with semicolons between them,
/// each a key, its first equals sign and a value; a piece without an equals sign says
/// nothing.
pub proof fn entries_are_keys_and_values(
    before: Seq<char>,
    key: Seq<char>,
    value: Seq<char>,
    after: Seq<char>,
)
    requires
        !key.contains('='),
        !key.contains(';'),
        !value.contains(';'),
    ensures
        entries(key + seq!['='] + value) == seq![(key, value)],
        entries(key) == Seq::<Entry>::empty(),
        entries(before + seq![';'] + after) == entries(before) + entries(after),
{
    let piece = key + seq!['='] + value;
    assert(!piece.contains(';')) by {
        if piece.contains(';') {
            let i = piece.index_of(';');
            if i < key.len() {
                assert(key[i] == ';');
            } else if i > key.len() {
                assert(value[i - key.len() - 1] == ';');
            }
        }
    }
    crate::text::marks_part_texts(piece, ';', Seq::empty());
    crate::text::marks_part_texts(key, ';', Seq::empty());
    crate::text::marks_part_texts(before, ';', after);
    let place = key.len() as int;
    assert forall|i: int| 0 <= i < place implies #[trigger] piece[i] != '=' by {
        assert(piece[i] == key[i]);
        assert(key.contains(key[i]));
    }
    crate::text::mark_is_the_first(piece, '=', 0, place);
    assert forall|i: int| 0 <= i < place implies #[trigger] key[i] != '=' by {
        assert(key.contains(key[i]));
    }
    crate::text::mark_is_the_first(key, '=', 0, place);
    assert(piece.take(place) =~= key);
    assert(piece.skip(place + 1) =~= value);
    reveal_with_fuel(entries_of, 2);
    assert(seq![piece].drop_last() =~= Seq::<Seq<char>>::empty());
    assert(seq![key].drop_last() =~= Seq::<Seq<char>>::empty());
    assert(entries(piece) =~= seq![(key, value)]);
    assert(entries(key) =~= Seq::<Entry>::empty());
    entries_add(crate::text::parts(before, ';', 0), crate::text::parts(after, ';', 0));
}

/// The entries of some pieces and of others.
proof fn entries_add(first: Seq<Seq<char>>, second: Seq<Seq<char>>)
    ensures
        entries_of(first + second) == entries_of(first) + entries_of(second),
    decreases second.len(),
{
    if second.len() == 0 {
        assert(first + second =~= first);
        assert(entries_of(first) + entries_of(second) =~= entries_of(first));
    } else {
        assert((first + second).drop_last() =~= first + second.drop_last());
        entries_add(first, second.drop_last());
        assert(entries_of(first + second) =~= entries_of(first) + entries_of(second));
    }
}

/// What one more entry makes of a setting.
proof fn one_more_entry<T>(
    listed: Seq<Entry>,
    entry: Entry,
    key: Seq<char>,
    read: spec_fn(Seq<char>) -> Option<T>,
    default: T,
)
    requires
        trimmed(entry.0) == key,
    ensures
        chosen(listed.push(entry), key, read, default) == (match read(entry.1) {
            Some(value) => value,
            None => chosen(listed, key, read, default),
        }),
{
    reveal(updated);
    assert(listed.push(entry).drop_last() =~= listed);
}

/// A look whose name is written behind everything else is taken.
pub proof fn named_looks_are_taken(settings: Settings, listed: Seq<Entry>, entry: Entry)
    requires
        settings.reflects(listed.push(entry)),
    ensures
        ({
            let key = trimmed(entry.0);
            let name = entry.1;
            &&& forall|choice: Theme|
                key == "theme"@ && name == #[trigger] choice.label() ==> settings.theme == choice
            &&& forall|choice: ColorMap|
                key == "map"@ && name == #[trigger] choice.label() ==> settings.color_map == choice
            &&& forall|choice: FpsLimit|
                key == "fps"@ && name == #[trigger] choice.label() ==> settings.fps_limit == choice
            &&& forall|choice: SpectrumStyle|
                key == "style"@ && name == #[trigger] choice.label() ==> settings.spectrum_style
                    == choice
            &&& forall|choice: SpectrogramHistory|
                key == "sphist"@ && name == #[trigger] choice.label()
                    ==> settings.spectrogram_history == choice
            &&& forall|choice: StereoStyle|
                key == "stereo"@ && name == #[trigger] choice.label() ==> settings.stereo_style
                    == choice
            &&& forall|choice: StereoColor|
                key == "stereocolor"@ && name == #[trigger] choice.label() ==> settings.stereo_color
                    == choice
            &&& forall|choice: PointSize|
                key == "points"@ && name == #[trigger] choice.label() ==> settings.point_size
                    == choice
        }),
{
    let key = trimmed(entry.0);
    let name = entry.1;
    assert forall|choice: Theme| key == "theme"@ && name == #[trigger] choice.label() implies settings.theme
        == choice by {
        choice.name_round_trip();
        one_more_entry(listed, entry, "theme"@, theme_entry(), Theme::Midnight);
    }
    assert forall|choice: ColorMap| key == "map"@ && name == #[trigger] choice.label() implies settings.color_map
        == choice by {
        choice.name_round_trip();
        one_more_entry(listed, entry, "map"@, color_map_entry(), ColorMap::Neta);
    }
    assert forall|choice: FpsLimit| key == "fps"@ && name == #[trigger] choice.label() implies settings.fps_limit
        == choice by {
        choice.name_round_trip();
        one_more_entry(listed, entry, "fps"@, fps_limit_entry(), FpsLimit::Vsync);
    }
    assert forall|choice: SpectrumStyle|
        key == "style"@ && name == #[trigger] choice.label() implies settings.spectrum_style
        == choice by {
        choice.name_round_trip();
        one_more_entry(listed, entry, "style"@, spectrum_style_entry(), SpectrumStyle::Both);
    }
    assert forall|choice: SpectrogramHistory|
        key == "sphist"@ && name == #[trigger] choice.label() implies settings.spectrogram_history
        == choice by {
        choice.name_round_trip();
        one_more_entry(
            listed,
            entry,
            "sphist"@,
            spectrogram_history_entry(),
            SpectrogramHistory::Fast,
        );
    }
    assert forall|choice: StereoStyle|
        key == "stereo"@ && name == #[trigger] choice.label() implies settings.stereo_style
        == choice by {
        choice.name_round_trip();
        one_more_entry(listed, entry, "stereo"@, stereo_style_entry(), StereoStyle::Linear);
    }
    assert forall|choice: StereoColor|
        key == "stereocolor"@ && name == #[trigger] choice.label() implies settings.stereo_color
        == choice by {
        choice.name_round_trip();
        one_more_entry(listed, entry, "stereocolor"@, stereo_color_entry(), StereoColor::Static);
    }
    assert forall|choice: PointSize|
        key == "points"@ && name == #[trigger] choice.label() implies settings.point_size
        == choice by {
        choice.name_round_trip();
        one_more_entry(listed, entry, "points"@, point_size_entry(), PointSize::Auto);
    }
}

/// A trace, a frame or an arrangement whose name is written behind everything else is
/// taken.
pub proof fn named_traces_are_taken(settings: Settings, listed: Seq<Entry>, entry: Entry)
    requires
        settings.reflects(listed.push(entry)),
    ensures
        ({
            let key = trimmed(entry.0);
            let name = entry.1;
            &&& forall|choice: WaveformColor|
                key == "wavecolor"@ && name == #[trigger] choice.label() ==> settings.waveform_color
                    == choice
            &&& forall|choice: WaveformStyle|
                key == "wavestyle"@ && name == #[trigger] choice.label() ==> settings.waveform_style
                    == choice
            &&& forall|choice: OscilloscopeStyle|
                key == "oscstyle"@ && name == #[trigger] choice.label()
                    ==> settings.oscilloscope_style == choice
            &&& forall|choice: Chrome|
                key == "chrome"@ && name == #[trigger] choice.label() ==> settings.chrome == choice
            &&& forall|choice: BuiltinPreset|
                key == "preset"@ && name == #[trigger] choice.label() ==> settings.preset == choice
        }),
{
    let key = trimmed(entry.0);
    let name = entry.1;
    assert forall|choice: WaveformColor|
        key == "wavecolor"@ && name == #[trigger] choice.label() implies settings.waveform_color
        == choice by {
        choice.name_round_trip();
        one_more_entry(listed, entry, "wavecolor"@, waveform_color_entry(), WaveformColor::Pink);
    }
    assert forall|choice: WaveformStyle|
        key == "wavestyle"@ && name == #[trigger] choice.label() implies settings.waveform_style
        == choice by {
        choice.name_round_trip();
        one_more_entry(listed, entry, "wavestyle"@, waveform_style_entry(), WaveformStyle::Band);
    }
    assert forall|choice: OscilloscopeStyle|
        key == "oscstyle"@ && name == #[trigger] choice.label() implies settings.oscilloscope_style
        == choice by {
        choice.name_round_trip();
        one_more_entry(
            listed,
            entry,
            "oscstyle"@,
            oscilloscope_style_entry(),
            OscilloscopeStyle::Overlay,
        );
    }
    assert forall|choice: Chrome| key == "chrome"@ && name == #[trigger] choice.label() implies settings.chrome
        == choice by {
        choice.name_round_trip();
        one_more_entry(listed, entry, "chrome"@, chrome_entry(), Chrome::Bare);
    }
    assert forall|choice: BuiltinPreset|
        key == "preset"@ && name == #[trigger] choice.label() implies settings.preset == choice by {
        choice.name_round_trip();
        one_more_entry(listed, entry, "preset"@, builtin_preset_entry(), BuiltinPreset::Default);
    }
}

/// Numbers that are written behind everything else are taken where the page offers them:
/// a speed from one to four, a zoom from half to fourfold in tenths, and the angles of the
/// object in tenths of a degree.
pub proof fn numbers_on_offer_are_taken(
    settings: Settings,
    listed: Seq<Entry>,
    entry: Entry,
    number: nat,
)
    requires
        settings.reflects(listed.push(entry)),
    ensures
        ({
            let key = trimmed(entry.0);
            let plain = entry.1 == crate::text::decimal_text(number);
            let negative = entry.1 == seq!['-'] + crate::text::decimal_text(number);
            &&& key == "speed"@ && plain && 1 <= number <= 4 ==> settings.spectrogram_speed
                == number
            &&& key == "oz"@ && plain && 5 <= number <= 40 ==> settings.object_zoom_tenths == number
            &&& key == "oy"@ && plain && number <= 3600 ==> settings.object_yaw_tenths == number
            &&& key == "oy"@ && negative && number <= 3600 ==> settings.object_yaw_tenths == -number
            &&& key == "op"@ && plain && number <= 850 ==> settings.object_pitch_tenths == number
            &&& key == "op"@ && negative && number <= 850 ==> settings.object_pitch_tenths
                == -number
        }),
{
    let key = trimmed(entry.0);
    crate::text::written_numbers_are_read_back(number, 4);
    crate::text::written_numbers_are_read_back(number, OBJECT_ZOOM_MAX as nat);
    crate::text::written_numbers_are_read_back(number, i16::MAX as nat);
    if key == "speed"@ {
        one_more_entry(listed, entry, "speed"@, speed_entry(), 4u8);
    }
    if key == "oz"@ {
        one_more_entry(listed, entry, "oz"@, zoom_entry(), 10u16);
    }
    if key == "oy"@ {
        one_more_entry(listed, entry, "oy"@, angle_entry(3600), 0i16);
    }
    if key == "op"@ {
        one_more_entry(listed, entry, "op"@, angle_entry(850), 0i16);
    }
}

/// Factors, switches, the arrangement and the model that are written behind everything
/// else are taken. A switch is on for the digit one and off for anything else.
pub proof fn what_is_written_last_is_taken(settings: Settings, listed: Seq<Entry>, entry: Entry)
    requires
        settings.reflects(listed.push(entry)),
    ensures
        ({
            let key = trimmed(entry.0);
            let value = entry.1;
            &&& key == "loop"@ ==> settings.spectrogram_loop == (value == "1"@)
            &&& key == "timecode"@ ==> settings.spectrogram_timecode == (value == "1"@)
            &&& key == "trace"@ ==> settings.spectrum_trace == (value == "1"@)
            &&& key == "hover"@ ==> settings.hover_readout == (value == "1"@)
            &&& key == "ospin"@ ==> settings.object_spin == (value == "1"@)
            &&& key == "wavegain"@ && value == "1"@ ==> settings.waveform_gain == 1
            &&& key == "wavegain"@ && value == "2"@ ==> settings.waveform_gain == 2
            &&& key == "wavegain"@ && value == "4"@ ==> settings.waveform_gain == 4
            &&& key == "oscgain"@ && value == "1"@ ==> settings.oscilloscope_gain == 1
            &&& key == "oscgain"@ && value == "2"@ ==> settings.oscilloscope_gain == 2
            &&& key == "oscgain"@ && value == "4"@ ==> settings.oscilloscope_gain == 4
            &&& key == "o"@ && order_value(value) is Some ==> settings.order@ == order_value(
                value,
            )->0
            &&& key == "w"@ && widths_value(value) is Some ==> settings.widths@ == widths_value(
                value,
            )->0
            &&& key == "model"@ && vstd::utf8::encode_utf8(value).len() <= MAX_PATH
                && !value.contains('\n') && !value.contains('\r') ==> settings.model@ == value
        }),
{
    let key = trimmed(entry.0);
    let value = entry.1;
    reveal_strlit("1");
    reveal_strlit("2");
    reveal_strlit("4");
    assert("1"@[0] != "2"@[0] && "1"@[0] != "4"@[0] && "2"@[0] != "4"@[0]);
    if key == "loop"@ {
        one_more_entry(listed, entry, "loop"@, one_entry(), true);
    }
    if key == "timecode"@ {
        one_more_entry(listed, entry, "timecode"@, one_entry(), false);
    }
    if key == "trace"@ {
        one_more_entry(listed, entry, "trace"@, one_entry(), true);
    }
    if key == "hover"@ {
        one_more_entry(listed, entry, "hover"@, one_entry(), true);
    }
    if key == "ospin"@ {
        one_more_entry(listed, entry, "ospin"@, one_entry(), true);
    }
    if key == "wavegain"@ {
        one_more_entry(listed, entry, "wavegain"@, gain_entry(), 1u8);
    }
    if key == "oscgain"@ {
        one_more_entry(listed, entry, "oscgain"@, gain_entry(), 1u8);
    }
    if key == "o"@ {
        one_more_entry(listed, entry, "o"@, order_entry(), default_order());
    }
    if key == "w"@ {
        one_more_entry(listed, entry, "w"@, widths_entry(), default_widths());
    }
    if key == "model"@ {
        one_more_entry(listed, entry, "model"@, path_entry(), Seq::empty());
        if !value.contains('\n') && !value.contains('\r') {
            assert forall|i: int| 0 <= i < value.len() implies #[trigger] value[i] != '\n' && value[i]
                != '\r' by {
                assert(value.contains(value[i]));
            }
        }
    }
}

/// A slot that is written behind everything else holds what was written, on one line and
/// within its size, and leaves the other slots alone.
pub proof fn written_slots_hold_what_was_written(
    settings: Settings,
    before: Settings,
    listed: Seq<Entry>,
    number: nat,
    value: Seq<char>,
    slot: int,
)
    requires
        number < 4,
        0 <= slot < 4,
        before.reflects(listed),
        settings.reflects(
            listed.push((seq!['s', 'l', 'o', 't'] + crate::text::decimal_text(number), value)),
        ),
        vstd::utf8::encode_utf8(value).len() <= MAX_SLOT,
        !value.contains('\n'),
        !value.contains('\r'),
    ensures
        slot == number ==> settings.slots@[slot]@ == value,
        slot != number ==> settings.slots@[slot]@ == before.slots@[slot]@,
{
    let digits = crate::text::decimal_text(number);
    let key = seq!['s', 'l', 'o', 't'] + digits;
    reveal_strlit("slot");
    assert(key.take(4) =~= "slot"@);
    assert(key.skip(4) =~= digits);
    crate::text::written_numbers_are_read_back(number, 3);
    assert(listed.push((key, value)).drop_last() =~= listed);
    assert forall|i: int| 0 <= i < value.len() implies #[trigger] value[i] != '\n' && value[i]
        != '\r' by {
        assert(value.contains(value[i]));
    }
}

/// What holds of the page where a state says nothing.
pub proof fn silent_states_have_their_defaults(settings: Settings)
    requires
        settings.reflects(Seq::empty()),
    ensures
        settings.order@ == seq![0usize, 7, 1, 2, 3, 8, 4, 5, 6],
        settings.widths@ == seq![150u32, 120, 220, 180, 180, 180, 160, 120, 170],
        settings.model@.len() == 0,
        settings.theme == Theme::Midnight,
        settings.color_map == ColorMap::Neta,
        settings.fps_limit == FpsLimit::Vsync,
        settings.spectrum_style == SpectrumStyle::Both,
        settings.spectrogram_history == SpectrogramHistory::Fast,
        settings.spectrogram_speed == 4,
        settings.spectrogram_loop && !settings.spectrogram_timecode,
        settings.stereo_style == StereoStyle::Linear,
        settings.stereo_color == StereoColor::Static,
        settings.point_size == PointSize::Auto,
        settings.waveform_color == WaveformColor::Pink,
        settings.waveform_style == WaveformStyle::Band,
        settings.waveform_gain == 1 && settings.oscilloscope_gain == 1,
        settings.oscilloscope_style == OscilloscopeStyle::Overlay,
        settings.spectrum_trace && settings.hover_readout && settings.object_spin,
        settings.chrome == Chrome::Bare,
        settings.object_yaw_tenths == 0 && settings.object_pitch_tenths == 0,
        settings.object_zoom_tenths == 10,
        settings.preset == BuiltinPreset::Default,
        forall|slot: int| 0 <= slot < 4 ==> (#[trigger] settings.slots@[slot])@.len() == 0,
{
}

} // verus!
