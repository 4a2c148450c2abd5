//! The choices that the persisted state names.
//!
//! Every choice has one name. Reading a name gives back the choice that carries
//! it, and nothing else is read as a choice.
use crate::text::{bytes_spell, same_text};
use vstd::prelude::*;

verus! {

/// Which signal the analysers hear.
#[derive(Clone, Copy, Debug, PartialEq, Eq, Structural)]
pub enum AnalysisSource {
    Stereo,
    Left,
    Right,
    Mid,
    Side,
}

impl Default for AnalysisSource {
    fn default() -> (choice: Self)
        ensures
            choice == AnalysisSource::Stereo,
    {
        AnalysisSource::Stereo
    }
}

impl AnalysisSource {
    /// The name that stands for the choice in the state.
    pub open spec fn label(self) -> Seq<char> {
        match self {
            AnalysisSource::Stereo => "stereo"@,
            AnalysisSource::Left => "left"@,
            AnalysisSource::Right => "right"@,
            AnalysisSource::Mid => "mid"@,
            AnalysisSource::Side => "side"@,
        }
    }

    /// The choice that the value names.
    pub open spec fn named(value: Seq<u8>) -> Option<Self> {
        if value == vstd::utf8::encode_utf8("stereo"@) {
            Some(AnalysisSource::Stereo)
        } else if value == vstd::utf8::encode_utf8("left"@) {
            Some(AnalysisSource::Left)
        } else if value == vstd::utf8::encode_utf8("right"@) {
            Some(AnalysisSource::Right)
        } else if value == vstd::utf8::encode_utf8("mid"@) {
            Some(AnalysisSource::Mid)
        } else if value == vstd::utf8::encode_utf8("side"@) {
            Some(AnalysisSource::Side)
        } else {
            None
        }
    }

    /// The name that stands for the choice in the state.
    pub fn name(self) -> (name: &'static str)
        ensures
            name@ == self.label(),
    {
        match self {
            AnalysisSource::Stereo => "stereo",
            AnalysisSource::Left => "left",
            AnalysisSource::Right => "right",
            AnalysisSource::Mid => "mid",
            AnalysisSource::Side => "side",
        }
    }

    /// The choice that the value names, where it names one.
    pub fn parse(value: &[u8]) -> (choice: Option<Self>)
        ensures
            choice == Self::named(value@),
    {
        if bytes_spell(value, "stereo") {
            Some(AnalysisSource::Stereo)
        } else if bytes_spell(value, "left") {
            Some(AnalysisSource::Left)
        } else if bytes_spell(value, "right") {
            Some(AnalysisSource::Right)
        } else if bytes_spell(value, "mid") {
            Some(AnalysisSource::Mid)
        } else if bytes_spell(value, "side") {
            Some(AnalysisSource::Side)
        } else {
            None
        }
    }

    /// The name of a choice is read back as that choice.
    pub proof fn name_round_trip(self)
        ensures
            Self::named(vstd::utf8::encode_utf8(self.label())) == Some(self),
    {
        reveal_strlit("stereo");
        reveal_strlit("left");
        reveal_strlit("right");
        reveal_strlit("mid");
        reveal_strlit("side");
        assert("stereo"@.len() != "left"@.len());
        assert("stereo"@.len() != "right"@.len());
        assert("stereo"@.len() != "mid"@.len());
        assert("stereo"@.len() != "side"@.len());
        assert("left"@.len() != "right"@.len());
        assert("left"@.len() != "mid"@.len());
        assert("left"@[0] != "side"@[0]);
        assert("right"@.len() != "mid"@.len());
        assert("right"@.len() != "side"@.len());
        assert("mid"@.len() != "side"@.len());
        crate::text::utf8_tells_texts_apart(self.label(), "stereo"@);
        crate::text::utf8_tells_texts_apart(self.label(), "left"@);
        crate::text::utf8_tells_texts_apart(self.label(), "right"@);
        crate::text::utf8_tells_texts_apart(self.label(), "mid"@);
        crate::text::utf8_tells_texts_apart(self.label(), "side"@);
    }
}

/// How the spectrum spaces its bands.
#[derive(Clone, Copy, Debug, PartialEq, Eq, Structural)]
pub enum SpectrumScale {
    Log,
    Mel,
    Linear,
}

impl Default for SpectrumScale {
    fn default() -> (choice: Self)
        ensures
            choice == SpectrumScale::Log,
    {
        SpectrumScale::Log
    }
}

impl SpectrumScale {
    /// The name that stands for the choice in the state.
    pub open spec fn label(self) -> Seq<char> {
        match self {
            SpectrumScale::Log => "log"@,
            SpectrumScale::Mel => "mel"@,
            SpectrumScale::Linear => "linear"@,
        }
    }

    /// The choice that the value names.
    pub open spec fn named(value: Seq<u8>) -> Option<Self> {
        if value == vstd::utf8::encode_utf8("log"@) {
            Some(SpectrumScale::Log)
        } else if value == vstd::utf8::encode_utf8("mel"@) {
            Some(SpectrumScale::Mel)
        } else if value == vstd::utf8::encode_utf8("linear"@) {
            Some(SpectrumScale::Linear)
        } else {
            None
        }
    }

    /// The name that stands for the choice in the state.
    pub fn name(self) -> (name: &'static str)
        ensures
            name@ == self.label(),
    {
        match self {
            SpectrumScale::Log => "log",
            SpectrumScale::Mel => "mel",
            SpectrumScale::Linear => "linear",
        }
    }

    /// The choice that the value names, where it names one.
    pub fn parse(value: &[u8]) -> (choice: Option<Self>)
        ensures
            choice == Self::named(value@),
    {
        if bytes_spell(value, "log") {
            Some(SpectrumScale::Log)
        } else if bytes_spell(value, "mel") {
            Some(SpectrumScale::Mel)
        } else if bytes_spell(value, "linear") {
            Some(SpectrumScale::Linear)
        } else {
            None
        }
    }

    /// The name of a choice is read back as that choice.
    pub proof fn name_round_trip(self)
        ensures
            Self::named(vstd::utf8::encode_utf8(self.label())) == Some(self),
    {
        reveal_strlit("log");
        reveal_strlit("mel");
        reveal_strlit("linear");
        assert("log"@[0] != "mel"@[0]);
        assert("log"@.len() != "linear"@.len());
        assert("mel"@.len() != "linear"@.len());
        crate::text::utf8_tells_texts_apart(self.label(), "log"@);
        crate::text::utf8_tells_texts_apart(self.label(), "mel"@);
        crate::text::utf8_tells_texts_apart(self.label(), "linear"@);
    }
}

/// How many frames one spectrum looks at.
#[derive(Clone, Copy, Debug, PartialEq, Eq, Structural)]
pub enum FftSize {
    Fft1024,
    Fft2048,
    Fft4096,
    Fft8192,
    Fft16384,
}

impl Default for FftSize {
    fn default() -> (size: Self)
        ensures
            size == FftSize::Fft2048,
    {
        FftSize::Fft2048
    }
}

impl FftSize {
    /// How many frames one spectrum looks at.
    pub open spec fn frame_count(self) -> int {
        match self {
            FftSize::Fft1024 => 1024,
            FftSize::Fft2048 => 2048,
            FftSize::Fft4096 => 4096,
            FftSize::Fft8192 => 8192,
            FftSize::Fft16384 => 16384,
        }
    }

    /// The place of the size among the sizes, smallest first.
    pub open spec fn position(self) -> int {
        match self {
            FftSize::Fft1024 => 0,
            FftSize::Fft2048 => 1,
            FftSize::Fft4096 => 2,
            FftSize::Fft8192 => 3,
            FftSize::Fft16384 => 4,
        }
    }

    /// The size that the value names.
    pub open spec fn named(value: Seq<u8>) -> Option<Self> {
        if value == vstd::utf8::encode_utf8("1024"@) {
            Some(FftSize::Fft1024)
        } else if value == vstd::utf8::encode_utf8("2048"@) {
            Some(FftSize::Fft2048)
        } else if value == vstd::utf8::encode_utf8("4096"@) {
            Some(FftSize::Fft4096)
        } else if value == vstd::utf8::encode_utf8("8192"@) {
            Some(FftSize::Fft8192)
        } else if value == vstd::utf8::encode_utf8("16384"@) {
            Some(FftSize::Fft16384)
        } else {
            None
        }
    }

    pub fn frames(self) -> (frames: usize)
        ensures
            frames == self.frame_count(),
    {
        match self {
            FftSize::Fft1024 => 1024,
            FftSize::Fft2048 => 2048,
            FftSize::Fft4096 => 4096,
            FftSize::Fft8192 => 8192,
            FftSize::Fft16384 => 16384,
        }
    }

    pub fn index(self) -> (index: usize)
        ensures
            index == self.position(),
    {
        match self {
            FftSize::Fft1024 => 0,
            FftSize::Fft2048 => 1,
            FftSize::Fft4096 => 2,
            FftSize::Fft8192 => 3,
            FftSize::Fft16384 => 4,
        }
    }

    /// The size that the value names, where it names one.
    pub fn parse(value: &[u8]) -> (size: Option<Self>)
        ensures
            size == Self::named(value@),
    {
        if bytes_spell(value, "1024") {
            Some(FftSize::Fft1024)
        } else if bytes_spell(value, "2048") {
            Some(FftSize::Fft2048)
        } else if bytes_spell(value, "4096") {
            Some(FftSize::Fft4096)
        } else if bytes_spell(value, "8192") {
            Some(FftSize::Fft8192)
        } else if bytes_spell(value, "16384") {
            Some(FftSize::Fft16384)
        } else {
            None
        }
    }

    /// The frame count of a size, in decimal digits, is read back as that size.
    pub proof fn frames_round_trip(self)
        ensures
            Self::named(vstd::utf8::encode_utf8(crate::text::decimal_text(self.frame_count() as nat)))
                == Some(self),
    {
        reveal_with_fuel(crate::text::decimal_text, 6);
        reveal_strlit("1024");
        reveal_strlit("2048");
        reveal_strlit("4096");
        reveal_strlit("8192");
        reveal_strlit("16384");
        assert("1024"@[0] != "2048"@[0]);
        assert("1024"@[0] != "4096"@[0]);
        assert("1024"@[0] != "8192"@[0]);
        assert("1024"@.len() != "16384"@.len());
        assert("2048"@[0] != "4096"@[0]);
        assert("2048"@[0] != "8192"@[0]);
        assert("2048"@.len() != "16384"@.len());
        assert("4096"@[0] != "8192"@[0]);
        assert("4096"@.len() != "16384"@.len());
        assert("8192"@.len() != "16384"@.len());
        assert(crate::text::decimal_text(1024) =~= "1024"@);
        assert(crate::text::decimal_text(2048) =~= "2048"@);
        assert(crate::text::decimal_text(4096) =~= "4096"@);
        assert(crate::text::decimal_text(8192) =~= "8192"@);
        assert(crate::text::decimal_text(16384) =~= "16384"@);
        crate::text::utf8_tells_texts_apart(crate::text::decimal_text(self.frame_count() as nat), "1024"@);
        crate::text::utf8_tells_texts_apart(crate::text::decimal_text(self.frame_count() as nat), "2048"@);
        crate::text::utf8_tells_texts_apart(crate::text::decimal_text(self.frame_count() as nat), "4096"@);
        crate::text::utf8_tells_texts_apart(crate::text::decimal_text(self.frame_count() as nat), "8192"@);
        crate::text::utf8_tells_texts_apart(crate::text::decimal_text(self.frame_count() as nat), "16384"@);
    }
}

/// What the needle follows.
#[derive(Clone, Copy, Debug, PartialEq, Eq, Structural)]
pub enum VuMode {
    Vu,
    Rms,
    Peak,
}

impl Default for VuMode {
    fn default() -> (choice: Self)
        ensures
            choice == VuMode::Vu,
    {
        VuMode::Vu
    }
}

impl VuMode {
    /// The name that stands for the choice in the state.
    pub open spec fn label(self) -> Seq<char> {
        match self {
            VuMode::Vu => "vu"@,
            VuMode::Rms => "rms"@,
            VuMode::Peak => "peak"@,
        }
    }

    /// The choice that the value names.
    pub open spec fn named(value: Seq<u8>) -> Option<Self> {
        if value == vstd::utf8::encode_utf8("vu"@) {
            Some(VuMode::Vu)
        } else if value == vstd::utf8::encode_utf8("rms"@) {
            Some(VuMode::Rms)
        } else if value == vstd::utf8::encode_utf8("peak"@) {
            Some(VuMode::Peak)
        } else {
            None
        }
    }

    /// The name that stands for the choice in the state.
    pub fn name(self) -> (name: &'static str)
        ensures
            name@ == self.label(),
    {
        match self {
            VuMode::Vu => "vu",
            VuMode::Rms => "rms",
            VuMode::Peak => "peak",
        }
    }

    /// The choice that the value names, where it names one.
    pub fn parse(value: &[u8]) -> (choice: Option<Self>)
        ensures
            choice == Self::named(value@),
    {
        if bytes_spell(value, "vu") {
            Some(VuMode::Vu)
        } else if bytes_spell(value, "rms") {
            Some(VuMode::Rms)
        } else if bytes_spell(value, "peak") {
            Some(VuMode::Peak)
        } else {
            None
        }
    }

    /// The name of a choice is read back as that choice.
    pub proof fn name_round_trip(self)
        ensures
            Self::named(vstd::utf8::encode_utf8(self.label())) == Some(self),
    {
        reveal_strlit("vu");
        reveal_strlit("rms");
        reveal_strlit("peak");
        assert("vu"@.len() != "rms"@.len());
        assert("vu"@.len() != "peak"@.len());
        assert("rms"@.len() != "peak"@.len());
        crate::text::utf8_tells_texts_apart(self.label(), "vu"@);
        crate::text::utf8_tells_texts_apart(self.label(), "rms"@);
        crate::text::utf8_tells_texts_apart(self.label(), "peak"@);
    }
}

/// Whether the oscilloscope locks to the pitch.
#[derive(Clone, Copy, Debug, PartialEq, Eq, Structural)]
pub enum OscilloscopeMode {
    Pitch,
    Free,
}

impl Default for OscilloscopeMode {
    fn default() -> (choice: Self)
        ensures
            choice == OscilloscopeMode::Pitch,
    {
        OscilloscopeMode::Pitch
    }
}

impl OscilloscopeMode {
    /// The name that stands for the choice in the state.
    pub open spec fn label(self) -> Seq<char> {
        match self {
            OscilloscopeMode::Pitch => "pitch"@,
            OscilloscopeMode::Free => "free"@,
        }
    }

    /// The choice that the value names.
    pub open spec fn named(value: Seq<u8>) -> Option<Self> {
        if value == vstd::utf8::encode_utf8("pitch"@) {
            Some(OscilloscopeMode::Pitch)
        } else if value == vstd::utf8::encode_utf8("free"@) {
            Some(OscilloscopeMode::Free)
        } else {
            None
        }
    }

    /// The name that stands for the choice in the state.
    pub fn name(self) -> (name: &'static str)
        ensures
            name@ == self.label(),
    {
        match self {
            OscilloscopeMode::Pitch => "pitch",
            OscilloscopeMode::Free => "free",
        }
    }

    /// The choice that the value names, where it names one.
    pub fn parse(value: &[u8]) -> (choice: Option<Self>)
        ensures
            choice == Self::named(value@),
    {
        if bytes_spell(value, "pitch") {
            Some(OscilloscopeMode::Pitch)
        } else if bytes_spell(value, "free") {
            Some(OscilloscopeMode::Free)
        } else {
            None
        }
    }

    /// The name of a choice is read back as that choice.
    pub proof fn name_round_trip(self)
        ensures
            Self::named(vstd::utf8::encode_utf8(self.label())) == Some(self),
    {
        reveal_strlit("pitch");
        reveal_strlit("free");
        assert("pitch"@.len() != "free"@.len());
        crate::text::utf8_tells_texts_apart(self.label(), "pitch"@);
        crate::text::utf8_tells_texts_apart(self.label(), "free"@);
    }
}

/// How many cycles a locked oscilloscope shows.
#[derive(Clone, Copy, Debug, PartialEq, Eq, Structural)]
pub enum OscilloscopeCycles {
    Single,
    Multi,
}

impl Default for OscilloscopeCycles {
    fn default() -> (choice: Self)
        ensures
            choice == OscilloscopeCycles::Multi,
    {
        OscilloscopeCycles::Multi
    }
}

impl OscilloscopeCycles {
    /// The name that stands for the choice in the state.
    pub open spec fn label(self) -> Seq<char> {
        match self {
            OscilloscopeCycles::Single => "single"@,
            OscilloscopeCycles::Multi => "multi"@,
        }
    }

    /// The choice that the value names.
    pub open spec fn named(value: Seq<u8>) -> Option<Self> {
        if value == vstd::utf8::encode_utf8("single"@) {
            Some(OscilloscopeCycles::Single)
        } else if value == vstd::utf8::encode_utf8("multi"@) {
            Some(OscilloscopeCycles::Multi)
        } else {
            None
        }
    }

    /// The name that stands for the choice in the state.
    pub fn name(self) -> (name: &'static str)
        ensures
            name@ == self.label(),
    {
        match self {
            OscilloscopeCycles::Single => "single",
            OscilloscopeCycles::Multi => "multi",
        }
    }

    /// The choice that the value names, where it names one.
    pub fn parse(value: &[u8]) -> (choice: Option<Self>)
        ensures
            choice == Self::named(value@),
    {
        if bytes_spell(value, "single") {
            Some(OscilloscopeCycles::Single)
        } else if bytes_spell(value, "multi") {
            Some(OscilloscopeCycles::Multi)
        } else {
            None
        }
    }

    /// The name of a choice is read back as that choice.
    pub proof fn name_round_trip(self)
        ensures
            Self::named(vstd::utf8::encode_utf8(self.label())) == Some(self),
    {
        reveal_strlit("single");
        reveal_strlit("multi");
        assert("single"@.len() != "multi"@.len());
        crate::text::utf8_tells_texts_apart(self.label(), "single"@);
        crate::text::utf8_tells_texts_apart(self.label(), "multi"@);
    }
}

/// The page's palette.
#[derive(Clone, Copy, Debug, PartialEq, Eq, Structural)]
pub enum Theme {
    Midnight,
    Coal,
    Mono,
}

impl Default for Theme {
    fn default() -> (choice: Self)
        ensures
            choice == Theme::Midnight,
    {
        Theme::Midnight
    }
}

impl Theme {
    /// The name that stands for the choice in the state.
    pub open spec fn label(self) -> Seq<char> {
        match self {
            Theme::Midnight => "midnight"@,
            Theme::Coal => "coal"@,
            Theme::Mono => "mono"@,
        }
    }

    /// The choice that the value names.
    pub open spec fn named(value: Seq<char>) -> Option<Self> {
        if value == "midnight"@ {
            Some(Theme::Midnight)
        } else if value == "coal"@ {
            Some(Theme::Coal)
        } else if value == "mono"@ {
            Some(Theme::Mono)
        } else {
            None
        }
    }

    /// The name that stands for the choice in the state.
    pub fn name(self) -> (name: &'static str)
        ensures
            name@ == self.label(),
    {
        match self {
            Theme::Midnight => "midnight",
            Theme::Coal => "coal",
            Theme::Mono => "mono",
        }
    }

    /// The choice that the value names, where it names one.
    pub fn parse(value: &str) -> (choice: Option<Self>)
        ensures
            choice == Self::named(value@),
    {
        if same_text(value, "midnight") {
            Some(Theme::Midnight)
        } else if same_text(value, "coal") {
            Some(Theme::Coal)
        } else if same_text(value, "mono") {
            Some(Theme::Mono)
        } else {
            None
        }
    }

    /// The name of a choice is read back as that choice.
    pub proof fn name_round_trip(self)
        ensures
            Self::named(self.label()) == Some(self),
    {
        reveal_strlit("midnight");
        reveal_strlit("coal");
        reveal_strlit("mono");
        assert("midnight"@.len() != "coal"@.len());
        assert("midnight"@.len() != "mono"@.len());
        assert("coal"@[0] != "mono"@[0]);
    }
}

/// The spectrogram's colours.
#[derive(Clone, Copy, Debug, PartialEq, Eq, Structural)]
pub enum ColorMap {
    Neta,
    Inferno,
    Viridis,
}

impl Default for ColorMap {
    fn default() -> (choice: Self)
        ensures
            choice == ColorMap::Neta,
    {
        ColorMap::Neta
    }
}

impl ColorMap {
    /// The name that stands for the choice in the state.
    pub open spec fn label(self) -> Seq<char> {
        match self {
            ColorMap::Neta => "neta"@,
            ColorMap::Inferno => "inferno"@,
            ColorMap::Viridis => "viridis"@,
        }
    }

    /// The choice that the value names.
    pub open spec fn named(value: Seq<char>) -> Option<Self> {
        if value == "neta"@ {
            Some(ColorMap::Neta)
        } else if value == "inferno"@ {
            Some(ColorMap::Inferno)
        } else if value == "viridis"@ {
            Some(ColorMap::Viridis)
        } else {
            None
        }
    }

    /// The name that stands for the choice in the state.
    pub fn name(self) -> (name: &'static str)
        ensures
            name@ == self.label(),
    {
        match self {
            ColorMap::Neta => "neta",
            ColorMap::Inferno => "inferno",
            ColorMap::Viridis => "viridis",
        }
    }

    /// The choice that the value names, where it names one.
    pub fn parse(value: &str) -> (choice: Option<Self>)
        ensures
            choice == Self::named(value@),
    {
        if same_text(value, "neta") {
            Some(ColorMap::Neta)
        } else if same_text(value, "inferno") {
            Some(ColorMap::Inferno)
        } else if same_text(value, "viridis") {
            Some(ColorMap::Viridis)
        } else {
            None
        }
    }

    /// The name of a choice is read back as that choice.
    pub proof fn name_round_trip(self)
        ensures
            Self::named(self.label()) == Some(self),
    {
        reveal_strlit("neta");
        reveal_strlit("inferno");
        reveal_strlit("viridis");
        assert("neta"@.len() != "inferno"@.len());
        assert("neta"@.len() != "viridis"@.len());
        assert("inferno"@[0] != "viridis"@[0]);
    }
}

/// How often the page redraws.
#[derive(Clone, Copy, Debug, PartialEq, Eq, Structural)]
pub enum FpsLimit {
    Vsync,
    Fps60,
    Fps30,
    Fps15,
}

impl Default for FpsLimit {
    fn default() -> (choice: Self)
        ensures
            choice == FpsLimit::Vsync,
    {
        FpsLimit::Vsync
    }
}

impl FpsLimit {
    /// The name that stands for the choice in the state.
    pub open spec fn label(self) -> Seq<char> {
        match self {
            FpsLimit::Vsync => "vsync"@,
            FpsLimit::Fps60 => "60"@,
            FpsLimit::Fps30 => "30"@,
            FpsLimit::Fps15 => "15"@,
        }
    }

    /// The choice that the value names.
    pub open spec fn named(value: Seq<char>) -> Option<Self> {
        if value == "vsync"@ {
            Some(FpsLimit::Vsync)
        } else if value == "60"@ {
            Some(FpsLimit::Fps60)
        } else if value == "30"@ {
            Some(FpsLimit::Fps30)
        } else if value == "15"@ {
            Some(FpsLimit::Fps15)
        } else {
            None
        }
    }

    /// The name that stands for the choice in the state.
    pub fn name(self) -> (name: &'static str)
        ensures
            name@ == self.label(),
    {
        match self {
            FpsLimit::Vsync => "vsync",
            FpsLimit::Fps60 => "60",
            FpsLimit::Fps30 => "30",
            FpsLimit::Fps15 => "15",
        }
    }

    /// The choice that the value names, where it names one.
    pub fn parse(value: &str) -> (choice: Option<Self>)
        ensures
            choice == Self::named(value@),
    {
        if same_text(value, "vsync") {
            Some(FpsLimit::Vsync)
        } else if same_text(value, "60") {
            Some(FpsLimit::Fps60)
        } else if same_text(value, "30") {
            Some(FpsLimit::Fps30)
        } else if same_text(value, "15") {
            Some(FpsLimit::Fps15)
        } else {
            None
        }
    }

    /// The name of a choice is read back as that choice.
    pub proof fn name_round_trip(self)
        ensures
            Self::named(self.label()) == Some(self),
    {
        reveal_strlit("vsync");
        reveal_strlit("60");
        reveal_strlit("30");
        reveal_strlit("15");
        assert("vsync"@.len() != "60"@.len());
        assert("vsync"@.len() != "30"@.len());
        assert("vsync"@.len() != "15"@.len());
        assert("60"@[0] != "30"@[0]);
        assert("60"@[0] != "15"@[0]);
        assert("30"@[0] != "15"@[0]);
    }
}

/// How the spectrum is drawn.
#[derive(Clone, Copy, Debug, PartialEq, Eq, Structural)]
pub enum SpectrumStyle {
    Fft,
    Bars,
    Both,
}

impl Default for SpectrumStyle {
    fn default() -> (choice: Self)
        ensures
            choice == SpectrumStyle::Both,
    {
        SpectrumStyle::Both
    }
}

impl SpectrumStyle {
    /// The name that stands for the choice in the state.
    pub open spec fn label(self) -> Seq<char> {
        match self {
            SpectrumStyle::Fft => "fft"@,
            SpectrumStyle::Bars => "bars"@,
            SpectrumStyle::Both => "both"@,
        }
    }

    /// The choice that the value names.
    pub open spec fn named(value: Seq<char>) -> Option<Self> {
        if value == "fft"@ {
            Some(SpectrumStyle::Fft)
        } else if value == "bars"@ {
            Some(SpectrumStyle::Bars)
        } else if value == "both"@ {
            Some(SpectrumStyle::Both)
        } else {
            None
        }
    }

    /// The name that stands for the choice in the state.
    pub fn name(self) -> (name: &'static str)
        ensures
            name@ == self.label(),
    {
        match self {
            SpectrumStyle::Fft => "fft",
            SpectrumStyle::Bars => "bars",
            SpectrumStyle::Both => "both",
        }
    }

    /// The choice that the value names, where it names one.
    pub fn parse(value: &str) -> (choice: Option<Self>)
        ensures
            choice == Self::named(value@),
    {
        if same_text(value, "fft") {
            Some(SpectrumStyle::Fft)
        } else if same_text(value, "bars") {
            Some(SpectrumStyle::Bars)
        } else if same_text(value, "both") {
            Some(SpectrumStyle::Both)
        } else {
            None
        }
    }

    /// The name of a choice is read back as that choice.
    pub proof fn name_round_trip(self)
        ensures
            Self::named(self.label()) == Some(self),
    {
        reveal_strlit("fft");
        reveal_strlit("bars");
        reveal_strlit("both");
        assert("fft"@.len() != "bars"@.len());
        assert("fft"@.len() != "both"@.len());
        assert("bars"@[1] != "both"@[1]);
    }
}

/// How long the spectrogram remembers.
#[derive(Clone, Copy, Debug, PartialEq, Eq, Structural)]
pub enum SpectrogramHistory {
    Off,
    Fast,
    Slow,
}

impl Default for SpectrogramHistory {
    fn default() -> (choice: Self)
        ensures
            choice == SpectrogramHistory::Fast,
    {
        SpectrogramHistory::Fast
    }
}

impl SpectrogramHistory {
    /// The name that stands for the choice in the state.
    pub open spec fn label(self) -> Seq<char> {
        match self {
            SpectrogramHistory::Off => "off"@,
            SpectrogramHistory::Fast => "fast"@,
            SpectrogramHistory::Slow => "slow"@,
        }
    }

    /// The choice that the value names.
    pub open spec fn named(value: Seq<char>) -> Option<Self> {
        if value == "off"@ {
            Some(SpectrogramHistory::Off)
        } else if value == "fast"@ {
            Some(SpectrogramHistory::Fast)
        } else if value == "slow"@ {
            Some(SpectrogramHistory::Slow)
        } else {
            None
        }
    }

    /// The name that stands for the choice in the state.
    pub fn name(self) -> (name: &'static str)
        ensures
            name@ == self.label(),
    {
        match self {
            SpectrogramHistory::Off => "off",
            SpectrogramHistory::Fast => "fast",
            SpectrogramHistory::Slow => "slow",
        }
    }

    /// The choice that the value names, where it names one.
    pub fn parse(value: &str) -> (choice: Option<Self>)
        ensures
            choice == Self::named(value@),
    {
        if same_text(value, "off") {
            Some(SpectrogramHistory::Off)
        } else if same_text(value, "fast") {
            Some(SpectrogramHistory::Fast)
        } else if same_text(value, "slow") {
            Some(SpectrogramHistory::Slow)
        } else {
            None
        }
    }

    /// The name of a choice is read back as that choice.
    pub proof fn name_round_trip(self)
        ensures
            Self::named(self.label()) == Some(self),
    {
        reveal_strlit("off");
        reveal_strlit("fast");
        reveal_strlit("slow");
        assert("off"@.len() != "fast"@.len());
        assert("off"@.len() != "slow"@.len());
        assert("fast"@[0] != "slow"@[0]);
    }
}

/// How the stereo panel is drawn.
#[derive(Clone, Copy, Debug, PartialEq, Eq, Structural)]
pub enum StereoStyle {
    Linear,
    Vectorscope,
}

impl Default for StereoStyle {
    fn default() -> (choice: Self)
        ensures
            choice == StereoStyle::Linear,
    {
        StereoStyle::Linear
    }
}

impl StereoStyle {
    /// The name that stands for the choice in the state.
    pub open spec fn label(self) -> Seq<char> {
        match self {
            StereoStyle::Linear => "linear"@,
            StereoStyle::Vectorscope => "vectorscope"@,
        }
    }

    /// The choice that the value names.
    pub open spec fn named(value: Seq<char>) -> Option<Self> {
        if value == "linear"@ {
            Some(StereoStyle::Linear)
        } else if value == "vectorscope"@ {
            Some(StereoStyle::Vectorscope)
        } else {
            None
        }
    }

    /// The name that stands for the choice in the state.
    pub fn name(self) -> (name: &'static str)
        ensures
            name@ == self.label(),
    {
        match self {
            StereoStyle::Linear => "linear",
            StereoStyle::Vectorscope => "vectorscope",
        }
    }

    /// The choice that the value names, where it names one.
    pub fn parse(value: &str) -> (choice: Option<Self>)
        ensures
            choice == Self::named(value@),
    {
        if same_text(value, "linear") {
            Some(StereoStyle::Linear)
        } else if same_text(value, "vectorscope") {
            Some(StereoStyle::Vectorscope)
        } else {
            None
        }
    }

    /// The name of a choice is read back as that choice.
    pub proof fn name_round_trip(self)
        ensures
            Self::named(self.label()) == Some(self),
    {
        reveal_strlit("linear");
        reveal_strlit("vectorscope");
        assert("linear"@.len() != "vectorscope"@.len());
    }
}

/// How the stereo panel is coloured.
#[derive(Clone, Copy, Debug, PartialEq, Eq, Structural)]
pub enum StereoColor {
    Static,
    Rgb,
    Multiband,
}

impl Default for StereoColor {
    fn default() -> (choice: Self)
        ensures
            choice == StereoColor::Static,
    {
        StereoColor::Static
    }
}

impl StereoColor {
    /// The name that stands for the choice in the state.
    pub open spec fn label(self) -> Seq<char> {
        match self {
            StereoColor::Static => "static"@,
            StereoColor::Rgb => "rgb"@,
            StereoColor::Multiband => "multiband"@,
        }
    }

    /// The choice that the value names.
    pub open spec fn named(value: Seq<char>) -> Option<Self> {
        if value == "static"@ {
            Some(StereoColor::Static)
        } else if value == "rgb"@ {
            Some(StereoColor::Rgb)
        } else if value == "multiband"@ {
            Some(StereoColor::Multiband)
        } else {
            None
        }
    }

    /// The name that stands for the choice in the state.
    pub fn name(self) -> (name: &'static str)
        ensures
            name@ == self.label(),
    {
        match self {
            StereoColor::Static => "static",
            StereoColor::Rgb => "rgb",
            StereoColor::Multiband => "multiband",
        }
    }

    /// The choice that the value names, where it names one.
    pub fn parse(value: &str) -> (choice: Option<Self>)
        ensures
            choice == Self::named(value@),
    {
        if same_text(value, "static") {
            Some(StereoColor::Static)
        } else if same_text(value, "rgb") {
            Some(StereoColor::Rgb)
        } else if same_text(value, "multiband") {
            Some(StereoColor::Multiband)
        } else {
            None
        }
    }

    /// The name of a choice is read back as that choice.
    pub proof fn name_round_trip(self)
        ensures
            Self::named(self.label()) == Some(self),
    {
        reveal_strlit("static");
        reveal_strlit("rgb");
        reveal_strlit("multiband");
        assert("static"@.len() != "rgb"@.len());
        assert("static"@.len() != "multiband"@.len());
        assert("rgb"@.len() != "multiband"@.len());
    }
}

/// How large the stereo panel's points are.
#[derive(Clone, Copy, Debug, PartialEq, Eq, Structural)]
pub enum PointSize {
    Auto,
    Small,
    Medium,
    Large,
}

impl Default for PointSize {
    fn default() -> (choice: Self)
        ensures
            choice == PointSize::Auto,
    {
        PointSize::Auto
    }
}

impl PointSize {
    /// The name that stands for the choice in the state.
    pub open spec fn label(self) -> Seq<char> {
        match self {
            PointSize::Auto => "auto"@,
            PointSize::Small => "small"@,
            PointSize::Medium => "medium"@,
            PointSize::Large => "large"@,
        }
    }

    /// The choice that the value names.
    pub open spec fn named(value: Seq<char>) -> Option<Self> {
        if value == "auto"@ {
            Some(PointSize::Auto)
        } else if value == "small"@ {
            Some(PointSize::Small)
        } else if value == "medium"@ {
            Some(PointSize::Medium)
        } else if value == "large"@ {
            Some(PointSize::Large)
        } else {
            None
        }
    }

    /// The name that stands for the choice in the state.
    pub fn name(self) -> (name: &'static str)
        ensures
            name@ == self.label(),
    {
        match self {
            PointSize::Auto => "auto",
            PointSize::Small => "small",
            PointSize::Medium => "medium",
            PointSize::Large => "large",
        }
    }

    /// The choice that the value names, where it names one.
    pub fn parse(value: &str) -> (choice: Option<Self>)
        ensures
            choice == Self::named(value@),
    {
        if same_text(value, "auto") {
            Some(PointSize::Auto)
        } else if same_text(value, "small") {
            Some(PointSize::Small)
        } else if same_text(value, "medium") {
            Some(PointSize::Medium)
        } else if same_text(value, "large") {
            Some(PointSize::Large)
        } else {
            None
        }
    }

    /// The name of a choice is read back as that choice.
    pub proof fn name_round_trip(self)
        ensures
            Self::named(self.label()) == Some(self),
    {
        reveal_strlit("auto");
        reveal_strlit("small");
        reveal_strlit("medium");
        reveal_strlit("large");
        assert("auto"@.len() != "small"@.len());
        assert("auto"@.len() != "medium"@.len());
        assert("auto"@.len() != "large"@.len());
        assert("small"@.len() != "medium"@.len());
        assert("small"@[0] != "large"@[0]);
        assert("medium"@.len() != "large"@.len());
    }
}

/// The waveform's colour.
#[derive(Clone, Copy, Debug, PartialEq, Eq, Structural)]
pub enum WaveformColor {
    Pink,
    Cyan,
    Amber,
}

impl Default for WaveformColor {
    fn default() -> (choice: Self)
        ensures
            choice == WaveformColor::Pink,
    {
        WaveformColor::Pink
    }
}

impl WaveformColor {
    /// The name that stands for the choice in the state.
    pub open spec fn label(self) -> Seq<char> {
        match self {
            WaveformColor::Pink => "pink"@,
            WaveformColor::Cyan => "cyan"@,
            WaveformColor::Amber => "amber"@,
        }
    }

    /// The choice that the value names.
    pub open spec fn named(value: Seq<char>) -> Option<Self> {
        if value == "pink"@ {
            Some(WaveformColor::Pink)
        } else if value == "cyan"@ {
            Some(WaveformColor::Cyan)
        } else if value == "amber"@ {
            Some(WaveformColor::Amber)
        } else {
            None
        }
    }

    /// The name that stands for the choice in the state.
    pub fn name(self) -> (name: &'static str)
        ensures
            name@ == self.label(),
    {
        match self {
            WaveformColor::Pink => "pink",
            WaveformColor::Cyan => "cyan",
            WaveformColor::Amber => "amber",
        }
    }

    /// The choice that the value names, where it names one.
    pub fn parse(value: &str) -> (choice: Option<Self>)
        ensures
            choice == Self::named(value@),
    {
        if same_text(value, "pink") {
            Some(WaveformColor::Pink)
        } else if same_text(value, "cyan") {
            Some(WaveformColor::Cyan)
        } else if same_text(value, "amber") {
            Some(WaveformColor::Amber)
        } else {
            None
        }
    }

    /// The name of a choice is read back as that choice.
    pub proof fn name_round_trip(self)
        ensures
            Self::named(self.label()) == Some(self),
    {
        reveal_strlit("pink");
        reveal_strlit("cyan");
        reveal_strlit("amber");
        assert("pink"@[0] != "cyan"@[0]);
        assert("pink"@.len() != "amber"@.len());
        assert("cyan"@.len() != "amber"@.len());
    }
}

/// How much furniture each panel carries.
#[derive(Clone, Copy, Debug, PartialEq, Eq, Structural)]
pub enum Chrome {
    /// No borders, no panel fill, no caption bar. The rail reads as one
    /// instrument and the header appears only under the pointer.
    Bare,
    /// Every panel in its own bordered card, caption always visible.
    Framed,
}

impl Default for Chrome {
    fn default() -> (choice: Self)
        ensures
            choice == Chrome::Bare,
    {
        Chrome::Bare
    }
}

impl Chrome {
    /// The name that stands for the choice in the state.
    pub open spec fn label(self) -> Seq<char> {
        match self {
            Chrome::Bare => "bare"@,
            Chrome::Framed => "framed"@,
        }
    }

    /// The choice that the value names.
    pub open spec fn named(value: Seq<char>) -> Option<Self> {
        if value == "bare"@ {
            Some(Chrome::Bare)
        } else if value == "framed"@ {
            Some(Chrome::Framed)
        } else {
            None
        }
    }

    /// The name that stands for the choice in the state.
    pub fn name(self) -> (name: &'static str)
        ensures
            name@ == self.label(),
    {
        match self {
            Chrome::Bare => "bare",
            Chrome::Framed => "framed",
        }
    }

    /// The choice that the value names, where it names one.
    pub fn parse(value: &str) -> (choice: Option<Self>)
        ensures
            choice == Self::named(value@),
    {
        if same_text(value, "bare") {
            Some(Chrome::Bare)
        } else if same_text(value, "framed") {
            Some(Chrome::Framed)
        } else {
            None
        }
    }

    /// The name of a choice is read back as that choice.
    pub proof fn name_round_trip(self)
        ensures
            Self::named(self.label()) == Some(self),
    {
        reveal_strlit("bare");
        reveal_strlit("framed");
        assert("bare"@.len() != "framed"@.len());
    }
}

/// How the waveform module draws its envelope.
#[derive(Clone, Copy, Debug, PartialEq, Eq, Structural)]
pub enum WaveformStyle {
    /// Filled body between the peaks.
    Band,
    /// One column per published point, the shape a DAW draws.
    Bars,
    /// Outline only, for reading the peaks against a busy background.
    Line,
}

impl Default for WaveformStyle {
    fn default() -> (choice: Self)
        ensures
            choice == WaveformStyle::Band,
    {
        WaveformStyle::Band
    }
}

impl WaveformStyle {
    /// The name that stands for the choice in the state.
    pub open spec fn label(self) -> Seq<char> {
        match self {
            WaveformStyle::Band => "band"@,
            WaveformStyle::Bars => "bars"@,
            WaveformStyle::Line => "line"@,
        }
    }

    /// The choice that the value names.
    pub open spec fn named(value: Seq<char>) -> Option<Self> {
        if value == "band"@ {
            Some(WaveformStyle::Band)
        } else if value == "bars"@ {
            Some(WaveformStyle::Bars)
        } else if value == "line"@ {
            Some(WaveformStyle::Line)
        } else {
            None
        }
    }

    /// The name that stands for the choice in the state.
    pub fn name(self) -> (name: &'static str)
        ensures
            name@ == self.label(),
    {
        match self {
            WaveformStyle::Band => "band",
            WaveformStyle::Bars => "bars",
            WaveformStyle::Line => "line",
        }
    }

    /// The choice that the value names, where it names one.
    pub fn parse(value: &str) -> (choice: Option<Self>)
        ensures
            choice == Self::named(value@),
    {
        if same_text(value, "band") {
            Some(WaveformStyle::Band)
        } else if same_text(value, "bars") {
            Some(WaveformStyle::Bars)
        } else if same_text(value, "line") {
            Some(WaveformStyle::Line)
        } else {
            None
        }
    }

    /// The name of a choice is read back as that choice.
    pub proof fn name_round_trip(self)
        ensures
            Self::named(self.label()) == Some(self),
    {
        reveal_strlit("band");
        reveal_strlit("bars");
        reveal_strlit("line");
        assert("band"@[2] != "bars"@[2]);
        assert("band"@[0] != "line"@[0]);
        assert("bars"@[0] != "line"@[0]);
    }
}

/// How the oscilloscope lays its two channels out.
#[derive(Clone, Copy, Debug, PartialEq, Eq, Structural)]
pub enum OscilloscopeStyle {
    /// Both traces on one axis. Phase is readable, detail overlaps.
    Overlay,
    /// Left above, right below. Detail is readable, phase needs the eye to
    /// travel.
    Split,
    /// One trace from the mid signal.
    Sum,
}

impl Default for OscilloscopeStyle {
    fn default() -> (choice: Self)
        ensures
            choice == OscilloscopeStyle::Overlay,
    {
        OscilloscopeStyle::Overlay
    }
}

impl OscilloscopeStyle {
    /// The name that stands for the choice in the state.
    pub open spec fn label(self) -> Seq<char> {
        match self {
            OscilloscopeStyle::Overlay => "overlay"@,
            OscilloscopeStyle::Split => "split"@,
            OscilloscopeStyle::Sum => "sum"@,
        }
    }

    /// The choice that the value names.
    pub open spec fn named(value: Seq<char>) -> Option<Self> {
        if value == "overlay"@ {
            Some(OscilloscopeStyle::Overlay)
        } else if value == "split"@ {
            Some(OscilloscopeStyle::Split)
        } else if value == "sum"@ {
            Some(OscilloscopeStyle::Sum)
        } else {
            None
        }
    }

    /// The name that stands for the choice in the state.
    pub fn name(self) -> (name: &'static str)
        ensures
            name@ == self.label(),
    {
        match self {
            OscilloscopeStyle::Overlay => "overlay",
            OscilloscopeStyle::Split => "split",
            OscilloscopeStyle::Sum => "sum",
        }
    }

    /// The choice that the value names, where it names one.
    pub fn parse(value: &str) -> (choice: Option<Self>)
        ensures
            choice == Self::named(value@),
    {
        if same_text(value, "overlay") {
            Some(OscilloscopeStyle::Overlay)
        } else if same_text(value, "split") {
            Some(OscilloscopeStyle::Split)
        } else if same_text(value, "sum") {
            Some(OscilloscopeStyle::Sum)
        } else {
            None
        }
    }

    /// The name of a choice is read back as that choice.
    pub proof fn name_round_trip(self)
        ensures
            Self::named(self.label()) == Some(self),
    {
        reveal_strlit("overlay");
        reveal_strlit("split");
        reveal_strlit("sum");
        assert("overlay"@.len() != "split"@.len());
        assert("overlay"@.len() != "sum"@.len());
        assert("split"@.len() != "sum"@.len());
    }
}

/// The arrangements that come with the page.
#[derive(Clone, Copy, Debug, PartialEq, Eq, Structural)]
pub enum BuiltinPreset {
    Default,
    Mix,
    Master,
    Scope,
}

impl Default for BuiltinPreset {
    fn default() -> (choice: Self)
        ensures
            choice == BuiltinPreset::Default,
    {
        BuiltinPreset::Default
    }
}

impl BuiltinPreset {
    /// The name that stands for the choice in the state.
    pub open spec fn label(self) -> Seq<char> {
        match self {
            BuiltinPreset::Default => "default"@,
            BuiltinPreset::Mix => "mix"@,
            BuiltinPreset::Master => "master"@,
            BuiltinPreset::Scope => "scope"@,
        }
    }

    /// The choice that the value names.
    pub open spec fn named(value: Seq<char>) -> Option<Self> {
        if value == "default"@ {
            Some(BuiltinPreset::Default)
        } else if value == "mix"@ {
            Some(BuiltinPreset::Mix)
        } else if value == "master"@ {
            Some(BuiltinPreset::Master)
        } else if value == "scope"@ {
            Some(BuiltinPreset::Scope)
        } else {
            None
        }
    }

    /// The name that stands for the choice in the state.
    pub fn name(self) -> (name: &'static str)
        ensures
            name@ == self.label(),
    {
        match self {
            BuiltinPreset::Default => "default",
            BuiltinPreset::Mix => "mix",
            BuiltinPreset::Master => "master",
            BuiltinPreset::Scope => "scope",
        }
    }

    /// The choice that the value names, where it names one.
    pub fn parse(value: &str) -> (choice: Option<Self>)
        ensures
            choice == Self::named(value@),
    {
        if same_text(value, "default") {
            Some(BuiltinPreset::Default)
        } else if same_text(value, "mix") {
            Some(BuiltinPreset::Mix)
        } else if same_text(value, "master") {
            Some(BuiltinPreset::Master)
        } else if same_text(value, "scope") {
            Some(BuiltinPreset::Scope)
        } else {
            None
        }
    }

    /// The name of a choice is read back as that choice.
    pub proof fn name_round_trip(self)
        ensures
            Self::named(self.label()) == Some(self),
    {
        reveal_strlit("default");
        reveal_strlit("mix");
        reveal_strlit("master");
        reveal_strlit("scope");
        assert("default"@.len() != "mix"@.len());
        assert("default"@.len() != "master"@.len());
        assert("default"@.len() != "scope"@.len());
        assert("mix"@.len() != "master"@.len());
        assert("mix"@.len() != "scope"@.len());
        assert("master"@.len() != "scope"@.len());
    }
}

} // verus!
