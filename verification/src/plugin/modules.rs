//! The modules of the rail: which are on, and what analysis each one needs.
use crate::scope::config as analysis;
use crate::scope::work::ScopeWork;
use crate::settings::options::{
    AnalysisSource, OscilloscopeCycles, OscilloscopeMode, SpectrumScale, VuMode,
};
use crate::settings::runtime::{RuntimeSettings, MODULE_COUNT};
use vstd::prelude::*;

verus! {

/// The places of the modules on the rail.
pub const MODULE_LOUDNESS: usize = 0;

pub const MODULE_SPECTRUM: usize = 1;

pub const MODULE_SPECTROGRAM: usize = 2;

pub const MODULE_WAVEFORM: usize = 3;

pub const MODULE_STEREO: usize = 4;

pub const MODULE_OBJECT: usize = 5;

pub const MODULE_VISUALS: usize = 6;

pub const MODULE_VU: usize = 7;

pub const MODULE_OSCILLOSCOPE: usize = 8;

/// The number of the spectrum among the scope's tasks.
pub open spec fn spectrum_task() -> u8 {
    4
}

/// Whether a module shows what a task of the scope measures: the waveform, the
/// stereo picture with its correlation and its points, the oscilloscope, and
/// the spectrum with its rows.
pub open spec fn module_shows(module: int, task: u8) -> bool {
    ||| module == MODULE_WAVEFORM && task == 1
    ||| module == MODULE_STEREO && (task == 0 || task == 2)
    ||| module == MODULE_OSCILLOSCOPE && task == 3
    ||| (module == MODULE_SPECTRUM || module == MODULE_SPECTROGRAM) && task == 4
}

/// Whether a module of the rail that is on shows a task.
pub open spec fn some_module_shows(enabled: Seq<bool>, task: u8) -> bool {
    exists|module: int|
        0 <= module < MODULE_COUNT && #[trigger] enabled[module] && module_shows(module, task)
}

/// What a module needs of the scope, if it needs anything.
pub fn module_scope_work(module: usize) -> (work: Option<ScopeWork>)
    ensures
        match work {
            Some(work) => {
                &&& exists|task: u8| module_shows(module as int, task)
                &&& forall|task: u8|
                    task < 8 ==> #[trigger] work.has(task) == module_shows(module as int, task)
            },
            None => forall|task: u8| !#[trigger] module_shows(module as int, task),
        },
{
    if module == MODULE_SPECTRUM || module == MODULE_SPECTROGRAM {
        assert(module_shows(module as int, 4));
        Some(ScopeWork::spectrum())
    } else if module == MODULE_WAVEFORM {
        assert(module_shows(module as int, 1));
        Some(ScopeWork::waveform())
    } else if module == MODULE_STEREO {
        assert(module_shows(module as int, 0));
        Some(ScopeWork::correlation().with(ScopeWork::goniometer()))
    } else if module == MODULE_OSCILLOSCOPE {
        assert(module_shows(module as int, 3));
        Some(ScopeWork::oscilloscope())
    } else {
        None
    }
}

/// The tasks that the scope does for the modules that are on. A held spectrum
/// is shown and not measured.
pub fn scope_work(runtime: &RuntimeSettings) -> (work: ScopeWork)
    ensures
        forall|task: u8|
            task < 8 ==> #[trigger] work.has(task) == (some_module_shows(runtime.enabled@, task)
                && (task == spectrum_task() ==> !runtime.spectrum_hold)),
{
    let mut work = ScopeWork::none();
    if runtime.enabled[MODULE_WAVEFORM] {
        work = work.with(ScopeWork::waveform());
    }
    if runtime.enabled[MODULE_STEREO] {
        work = work.with(ScopeWork::correlation()).with(ScopeWork::goniometer());
    }
    if runtime.enabled[MODULE_OSCILLOSCOPE] {
        work = work.with(ScopeWork::oscilloscope());
    }
    if !runtime.spectrum_hold && (runtime.enabled[MODULE_SPECTRUM]
        || runtime.enabled[MODULE_SPECTROGRAM]) {
        work = work.with(ScopeWork::spectrum());
    }
    proof {
        let enabled = runtime.enabled@;
        assert forall|task: u8| task < 8 implies #[trigger] work.has(task) == (some_module_shows(
            enabled,
            task,
        ) && (task == spectrum_task() ==> !runtime.spectrum_hold)) by {
            assert(some_module_shows(enabled, task) == ({
                ||| enabled[3] && task == 1
                ||| enabled[4] && (task == 0 || task == 2)
                ||| enabled[8] && task == 3
                ||| (enabled[1] || enabled[2]) && task == 4
            }));
        }
    }
    work
}

/// A module keeps the spectrum's work alive only if it shows a spectrum: with
/// both spectrum modules off, or with the spectrum held, none is measured.
pub proof fn only_spectrum_modules_need_the_fft(runtime: RuntimeSettings)
    ensures
        some_module_shows(runtime.enabled@, spectrum_task()) == (
        runtime.enabled@[MODULE_SPECTRUM as int] || runtime.enabled@[MODULE_SPECTROGRAM as int]),
{
    let enabled = runtime.enabled@;
    assert(enabled[1] ==> module_shows(1, spectrum_task()));
    assert(enabled[2] ==> module_shows(2, spectrum_task()));
}

/// The rail as a number: module `i` is bit `i`.
pub open spec fn mask_of(enabled: Seq<bool>, count: int) -> int
    decreases count,
{
    if count <= 0 {
        0
    } else {
        mask_of(enabled, count - 1) + (if enabled[count - 1] {
            vstd::arithmetic::power2::pow2((count - 1) as nat) as int
        } else {
            0
        })
    }
}

/// The rail as a number: module `i` is bit `i`.
pub fn module_mask(runtime: &RuntimeSettings) -> (mask: u16)
    ensures
        mask == mask_of(runtime.enabled@, MODULE_COUNT as int),
        mask < 512,
{
    let mut mask: u16 = 0;
    let mut bit: u16 = 1;
    let mut module: usize = 0;
    proof {
        vstd::arithmetic::power2::lemma2_to64();
    }
    while module < MODULE_COUNT
        invariant
            module <= MODULE_COUNT,
            bit == vstd::arithmetic::power2::pow2(module as nat),
            bit <= 512,
            mask == mask_of(runtime.enabled@, module as int),
            mask < bit,
        decreases MODULE_COUNT - module,
    {
        proof {
            vstd::arithmetic::power2::lemma_pow2_unfold((module + 1) as nat);
            vstd::arithmetic::power2::lemma2_to64();
            if module < 8 {
                vstd::arithmetic::power2::lemma_pow2_strictly_increases(module as nat, 8);
            }
        }
        if runtime.enabled[module] {
            mask = mask + bit;
        }
        bit = bit * 2;
        module = module + 1;
    }
    proof {
        vstd::arithmetic::power2::lemma2_to64();
    }
    mask
}

/// The number of an analysis source in a picture.
pub open spec fn source_number(source: AnalysisSource) -> u8 {
    match source {
        AnalysisSource::Stereo => 0,
        AnalysisSource::Left => 1,
        AnalysisSource::Right => 2,
        AnalysisSource::Mid => 3,
        AnalysisSource::Side => 4,
    }
}

/// The number of an analysis source in a picture.
pub fn source_id(source: AnalysisSource) -> (id: u8)
    ensures
        id == source_number(source),
{
    match source {
        AnalysisSource::Stereo => 0,
        AnalysisSource::Left => 1,
        AnalysisSource::Right => 2,
        AnalysisSource::Mid => 3,
        AnalysisSource::Side => 4,
    }
}

/// What a source makes of a stereo frame whose mid and side are given.
pub open spec fn routed<T>(source: AnalysisSource, left: T, right: T, mid: T, side: T) -> (T, T) {
    match source {
        AnalysisSource::Stereo => (left, right),
        AnalysisSource::Left => (left, left),
        AnalysisSource::Right => (right, right),
        AnalysisSource::Mid => (mid, mid),
        AnalysisSource::Side => (side, side),
    }
}

/// What a source makes of a stereo frame whose mid and side are given.
pub fn route<T: Copy>(source: AnalysisSource, left: T, right: T, mid: T, side: T) -> (pair: (T, T))
    ensures
        pair == routed(source, left, right, mid, side),
{
    match source {
        AnalysisSource::Stereo => (left, right),
        AnalysisSource::Left => (left, left),
        AnalysisSource::Right => (right, right),
        AnalysisSource::Mid => (mid, mid),
        AnalysisSource::Side => (side, side),
    }
}

/// Whether loudness counts the right channel: one signal on both channels would
/// otherwise be counted twice.
pub fn measures_right(source: AnalysisSource) -> (measured: bool)
    ensures
        measured == (source == AnalysisSource::Stereo),
{
    match source {
        AnalysisSource::Stereo => true,
        _ => false,
    }
}

/// The band grouping that a setting asks for.
pub open spec fn grouping(scale: SpectrumScale) -> analysis::SpectrumScale {
    match scale {
        SpectrumScale::Log => analysis::SpectrumScale::Log,
        SpectrumScale::Mel => analysis::SpectrumScale::Mel,
        SpectrumScale::Linear => analysis::SpectrumScale::Linear,
    }
}

/// The band grouping that a setting asks for.
pub fn spectrum_scale(scale: SpectrumScale) -> (result: analysis::SpectrumScale)
    ensures
        result == grouping(scale),
{
    match scale {
        SpectrumScale::Log => analysis::SpectrumScale::Log,
        SpectrumScale::Mel => analysis::SpectrumScale::Mel,
        SpectrumScale::Linear => analysis::SpectrumScale::Linear,
    }
}

/// The needle that a setting asks for.
pub open spec fn needle(mode: VuMode) -> crate::meter::vu::VuMode {
    match mode {
        VuMode::Vu => crate::meter::vu::VuMode::Vu,
        VuMode::Rms => crate::meter::vu::VuMode::Rms,
        VuMode::Peak => crate::meter::vu::VuMode::Peak,
    }
}

/// The needle that a setting asks for.
pub fn vu_mode(mode: VuMode) -> (result: crate::meter::vu::VuMode)
    ensures
        result == needle(mode),
{
    match mode {
        VuMode::Vu => crate::meter::vu::VuMode::Vu,
        VuMode::Rms => crate::meter::vu::VuMode::Rms,
        VuMode::Peak => crate::meter::vu::VuMode::Peak,
    }
}

/// The trigger policy that a setting asks for.
pub fn oscilloscope_mode(mode: OscilloscopeMode) -> (result: analysis::OscilloscopeMode)
    ensures
        result == (match mode {
            OscilloscopeMode::Pitch => analysis::OscilloscopeMode::Pitch,
            OscilloscopeMode::Free => analysis::OscilloscopeMode::Free,
        }),
{
    match mode {
        OscilloscopeMode::Pitch => analysis::OscilloscopeMode::Pitch,
        OscilloscopeMode::Free => analysis::OscilloscopeMode::Free,
    }
}

/// The cycle count that a setting asks for.
pub fn oscilloscope_cycles(cycles: OscilloscopeCycles) -> (result: analysis::OscilloscopeCycles)
    ensures
        result == (match cycles {
            OscilloscopeCycles::Single => analysis::OscilloscopeCycles::Single,
            OscilloscopeCycles::Multi => analysis::OscilloscopeCycles::Multi,
        }),
{
    match cycles {
        OscilloscopeCycles::Single => analysis::OscilloscopeCycles::Single,
        OscilloscopeCycles::Multi => analysis::OscilloscopeCycles::Multi,
    }
}

/// Every task of the scope is done for the modules that show it and for no other: the
/// waveform for the waveform, the oscilloscope for the oscilloscope, correlation and
/// points for the stereo picture, and the spectrum for both modules that show one.
pub proof fn tasks_are_done_for_the_modules_that_show_them(module: int)
    ensures
        module_shows(module, crate::scope::analyzer::waveform_task()) <==> module
            == MODULE_WAVEFORM,
        module_shows(module, crate::scope::analyzer::oscilloscope_task()) <==> module
            == MODULE_OSCILLOSCOPE,
        module_shows(module, crate::scope::analyzer::correlation_task()) <==> module
            == MODULE_STEREO,
        module_shows(module, crate::scope::analyzer::goniometer_task()) <==> module
            == MODULE_STEREO,
        module_shows(module, crate::scope::analyzer::spectrum_task()) <==> module
            == MODULE_SPECTRUM || module == MODULE_SPECTROGRAM,
        spectrum_task() == crate::scope::analyzer::spectrum_task(),
{
}

/// The number of a rail tells every module of it: its bits are the modules that are on.
pub proof fn masks_tell_the_modules(enabled: Seq<bool>, count: int, module: int)
    requires
        0 <= module < count,
    ensures
        (mask_of(enabled, count) / vstd::arithmetic::power2::pow2(module as nat) as int) % 2 == (
        if enabled[module] {
            1int
        } else {
            0int
        }),
        0 <= mask_of(enabled, count) < vstd::arithmetic::power2::pow2(count as nat),
    decreases count,
{
    let last = count - 1;
    let power = vstd::arithmetic::power2::pow2(last as nat) as int;
    let lower = mask_of(enabled, last);
    let bit = if enabled[last] {
        1int
    } else {
        0int
    };
    vstd::arithmetic::power2::lemma_pow2_unfold(count as nat);
    vstd::arithmetic::power2::lemma_pow2_pos(last as nat);
    vstd::arithmetic::power2::lemma2_to64();
    if last > 0 {
        masks_tell_the_modules(enabled, last, 0);
    }
    assert(0 <= lower < power);
    assert(mask_of(enabled, count) == bit * power + lower) by {
        assert(1 * power == power && 0 * power == 0);
    }
    if module == last {
        vstd::arithmetic::div_mod::lemma_fundamental_div_mod_converse(
            bit * power + lower,
            power,
            bit,
            lower,
        );
    } else {
        masks_tell_the_modules(enabled, last, module);
        let small = vstd::arithmetic::power2::pow2(module as nat) as int;
        let between = (last - module - 1) as nat;
        vstd::arithmetic::power2::lemma_pow2_pos(module as nat);
        vstd::arithmetic::power2::lemma_pow2_adds(module as nat, between + 1);
        vstd::arithmetic::power2::lemma_pow2_unfold(between + 1);
        let factor = vstd::arithmetic::power2::pow2(between) as int;
        assert(power == small * (2 * factor));
        let quotient = lower / small;
        let rest = lower % small;
        vstd::arithmetic::div_mod::lemma_fundamental_div_mod(lower, small);
        vstd::arithmetic::div_mod::lemma_mod_bound(lower, small);
        let shifted = 2 * (bit * factor);
        assert(bit * power + lower == (shifted + quotient) * small + rest) by (nonlinear_arith)
            requires
                power == small * (2 * factor),
                lower == small * quotient + rest,
                shifted == 2 * (bit * factor),
        ;
        vstd::arithmetic::div_mod::lemma_fundamental_div_mod_converse(
            bit * power + lower,
            small,
            shifted + quotient,
            rest,
        );
        assert((shifted + quotient) % 2 == quotient % 2);
    }
}

/// Numbers tell sources apart.
pub proof fn source_numbers_are_distinct(one: AnalysisSource, other: AnalysisSource)
    ensures
        source_number(one) < 5,
        source_number(one) == source_number(other) <==> one == other,
        source_number(AnalysisSource::Stereo) == 0,
{
}

/// A stereo source hears each channel on its side; every other source is one signal on
/// both sides. Exchanging the channels exchanges what left and right hear, and leaves
/// what mid hears.
pub proof fn sources_hear_what_they_are_named_for<T>(
    source: AnalysisSource,
    left: T,
    right: T,
    mid: T,
    side: T,
)
    ensures
        ({
            let heard = routed(source, left, right, mid, side);
            &&& source == AnalysisSource::Stereo ==> heard.0 == left && heard.1 == right
            &&& source != AnalysisSource::Stereo ==> heard.0 == heard.1
            &&& source == AnalysisSource::Left ==> heard.0 == left && heard == routed(
                AnalysisSource::Right,
                right,
                left,
                mid,
                side,
            )
            &&& source == AnalysisSource::Mid ==> heard.0 == mid
            &&& source == AnalysisSource::Side ==> heard.0 == side
        }),
{
}

} // verus!
