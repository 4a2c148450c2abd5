//! The script that tells the page its settings.
use crate::model::{joined, quote, quoted, texts};
use crate::settings::fields::{fields, version_of};
use crate::settings::state::{entries, Settings};
use crate::text::{decimal_text, push_decimal, push_signed, signed_text};
use vstd::prelude::*;

verus! {

/// A truth value, as the script writes it.
pub open spec fn flag_text(value: bool) -> Seq<char> {
    if value {
        "true"@
    } else {
        "false"@
    }
}

/// A truth value, as the script writes it.
pub fn bool_text(value: bool) -> (text: &'static str)
    ensures
        text@ == flag_text(value),
{
    if value {
        "true"
    } else {
        "false"
    }
}

/// A name in quotes.
pub open spec fn named(label: Seq<char>) -> Seq<char> {
    "\""@ + label + "\""@
}

/// Appends a name in quotes.
fn push_named(script: &mut String, name: &str)
    ensures
        final(script)@ == old(script)@ + named(name@),
{
    script.append("\"");
    script.append(name);
    script.append("\"");
    assert(script@ =~= old(script)@ + named(name@));
}

/// The flags with commas between them.
pub open spec fn flags_text(flags: Seq<bool>) -> Seq<char> {
    joined(Seq::new(flags.len(), |i: int| flag_text(flags[i])))
}

/// Appends the flags with commas between them.
fn push_flags(script: &mut String, flags: &[bool])
    ensures
        final(script)@ == old(script)@ + flags_text(flags@),
{
    let ghost start = script@;
    let ghost all = Seq::new(flags@.len(), |i: int| flag_text(flags@[i]));
    let mut index: usize = 0;
    assert(all.take(0) =~= Seq::<Seq<char>>::empty());
    assert(script@ =~= start + joined(all.take(0)));
    while index < flags.len()
        invariant
            index <= flags.len(),
            all == Seq::new(flags@.len(), |i: int| flag_text(flags@[i])),
            script@ == start + joined(all.take(index as int)),
        decreases flags.len() - index,
    {
        if index > 0 {
            script.append(",");
        }
        script.append(bool_text(flags[index]));
        index = index + 1;
        proof {
            assert(all.take(index as int).drop_last() =~= all.take(index - 1));
            assert(all.take(index as int).last() == flag_text(flags@[index - 1]));
            assert(script@ =~= start + joined(all.take(index as int)));
        }
    }
    assert(all.take(all.len() as int) =~= all);
}

/// The numbers with commas between them.
pub open spec fn numbers_text(numbers: Seq<nat>) -> Seq<char> {
    joined(Seq::new(numbers.len(), |i: int| decimal_text(numbers[i])))
}

/// Appends the numbers with commas between them.
fn push_numbers(script: &mut String, numbers: &[u64])
    ensures
        final(script)@ == old(script)@ + numbers_text(
            Seq::new(numbers@.len(), |i: int| numbers@[i] as nat),
        ),
{
    let ghost start = script@;
    let ghost values = Seq::new(numbers@.len(), |i: int| numbers@[i] as nat);
    let ghost all = Seq::new(values.len(), |i: int| decimal_text(values[i]));
    let mut index: usize = 0;
    assert(all.take(0) =~= Seq::<Seq<char>>::empty());
    assert(script@ =~= start + joined(all.take(0)));
    while index < numbers.len()
        invariant
            index <= numbers.len(),
            values == Seq::new(numbers@.len(), |i: int| numbers@[i] as nat),
            all == Seq::new(values.len(), |i: int| decimal_text(values[i])),
            script@ == start + joined(all.take(index as int)),
        decreases numbers.len() - index,
    {
        if index > 0 {
            script.append(",");
        }
        push_decimal(script, numbers[index]);
        index = index + 1;
        proof {
            assert(all.take(index as int).drop_last() =~= all.take(index - 1));
            assert(all.take(index as int).last() == decimal_text(numbers@[index - 1] as nat));
            assert(script@ =~= start + joined(all.take(index as int)));
        }
    }
    assert(all.take(all.len() as int) =~= all);
}

/// The string literals of the texts, with commas between them.
pub open spec fn literals_text(strings: Seq<Seq<char>>) -> Seq<char> {
    joined(Seq::new(strings.len(), |i: int| quoted(strings[i])))
}

/// Appends the string literals of the texts, with commas between them.
fn push_literals(script: &mut String, strings: &[String])
    ensures
        final(script)@ == old(script)@ + literals_text(texts(strings@)),
{
    let ghost start = script@;
    let ghost values = texts(strings@);
    let ghost all = Seq::new(values.len(), |i: int| quoted(values[i]));
    let mut index: usize = 0;
    assert(all.take(0) =~= Seq::<Seq<char>>::empty());
    assert(script@ =~= start + joined(all.take(0)));
    while index < strings.len()
        invariant
            index <= strings.len(),
            values == texts(strings@),
            all == Seq::new(values.len(), |i: int| quoted(values[i])),
            script@ == start + joined(all.take(index as int)),
        decreases strings.len() - index,
    {
        if index > 0 {
            script.append(",");
        }
        script.append(quote(strings[index].as_str()).as_str());
        index = index + 1;
        proof {
            assert(all.take(index as int).drop_last() =~= all.take(index - 1));
            assert(all.take(index as int).last() == quoted(strings@[index - 1]@));
            assert(script@ =~= start + joined(all.take(index as int)));
        }
    }
    assert(all.take(all.len() as int) =~= all);
}

/// The numbers of the places.
pub open spec fn places(order: Seq<usize>) -> Seq<nat> {
    Seq::new(order.len(), |i: int| order[i] as nat)
}

/// The numbers of the widths.
pub open spec fn sizes(widths: Seq<u32>) -> Seq<nat> {
    Seq::new(widths.len(), |i: int| widths[i] as nat)
}

/// What the script says of the modules and the model.
pub open spec fn layout_text(settings: Settings) -> Seq<char> {
    "v:2,e:["@ + flags_text(settings.runtime.enabled@) + "],o:["@ + numbers_text(
        places(settings.order@),
    ) + "],w:["@ + numbers_text(sizes(settings.widths@)) + "],model:"@ + quoted(settings.model@)
}

/// What the script says of the target, the look and the spectrum.
pub open spec fn sound_text(settings: Settings) -> Seq<char> {
    ",target:"@ + signed_text(settings.runtime.target_lufs as int)
        + ",theme:"@ + named(settings.theme.label())
        + ",map:"@ + named(settings.color_map.label())
        + ",fps:"@ + named(settings.fps_limit.label())
        + ",route:"@ + named(settings.runtime.analysis_source.label())
        + ",trim:"@ + signed_text(settings.runtime.trim_db as int)
        + ",fft:"@ + decimal_text(settings.runtime.fft_size.frame_count() as nat)
        + ",scale:"@ + named(settings.runtime.spectrum_scale.label())
        + ",style:"@ + named(settings.spectrum_style.label())
        + ",smooth:"@ + signed_text(settings.runtime.spectrum_smoothing as int)
        + ",tilt:"@ + signed_text(settings.runtime.spectrum_tilt_db as int)
        + ",hold:"@ + flag_text(settings.runtime.spectrum_hold)
}

/// What the script says of the needle, the oscilloscope, the loudness panels and the spectrogram.
pub open spec fn panels_text(settings: Settings) -> Seq<char> {
    ",vu:"@ + named(settings.runtime.vu_mode.label())
        + ",cal:"@ + signed_text(settings.runtime.vu_calibration as int)
        + ",osc:"@ + named(settings.runtime.oscilloscope_mode.label())
        + ",cycles:"@ + named(settings.runtime.oscilloscope_cycles.label())
        + ",timeline:"@ + flag_text(settings.runtime.loudness_timeline)
        + ",hist:"@ + flag_text(settings.runtime.loudness_histogram)
        + ",overs:"@ + flag_text(settings.runtime.loudness_overs)
        + ",sphist:"@ + named(settings.spectrogram_history.label())
        + ",speed:"@ + signed_text(settings.spectrogram_speed as int)
        + ",loop:"@ + flag_text(settings.spectrogram_loop)
        + ",timecode:"@ + flag_text(settings.spectrogram_timecode)
}

/// What the script says of the stereo panel, the waveform and the traces.
pub open spec fn traces_text(settings: Settings) -> Seq<char> {
    ",stereo:"@ + named(settings.stereo_style.label())
        + ",stereocolor:"@ + named(settings.stereo_color.label())
        + ",points:"@ + named(settings.point_size.label())
        + ",wavecolor:"@ + named(settings.waveform_color.label())
        + ",wavestyle:"@ + named(settings.waveform_style.label())
        + ",wavegain:"@ + signed_text(settings.waveform_gain as int)
        + ",oscstyle:"@ + named(settings.oscilloscope_style.label())
        + ",oscgain:"@ + signed_text(settings.oscilloscope_gain as int)
}

/// What the script says of the readouts, the object and the arrangement.
pub open spec fn view_text(settings: Settings) -> Seq<char> {
    ",trace:"@ + flag_text(settings.spectrum_trace)
        + ",hover:"@ + flag_text(settings.hover_readout)
        + ",chrome:"@ + named(settings.chrome.label())
        + ",oy:"@ + signed_text(settings.object_yaw_tenths as int)
        + ",op:"@ + signed_text(settings.object_pitch_tenths as int)
        + ",oz:"@ + signed_text(settings.object_zoom_tenths as int)
        + ",ospin:"@ + flag_text(settings.object_spin)
        + ",preset:"@ + named(settings.preset.label())
}

/// The script that tells the page its settings.
pub open spec fn settings_script(settings: Settings) -> Seq<char> {
    "window.__neta_settings&&window.__neta_settings({"@ + layout_text(settings) + sound_text(settings)
        + panels_text(settings) + traces_text(settings) + view_text(settings) + ",slots:["@
        + literals_text(texts(settings.slots@)) + "]});"@
}

/// The numbers of the places.
fn place_numbers(order: &[usize]) -> (numbers: Vec<u64>)
    ensures
        numbers@.len() == order@.len(),
        forall|i: int| 0 <= i < order@.len() ==> #[trigger] numbers@[i] == order@[i],
{
    let mut numbers: Vec<u64> = Vec::new();
    let mut index: usize = 0;
    while index < order.len()
        invariant
            index <= order.len(),
            numbers@.len() == index,
            forall|i: int| 0 <= i < index ==> #[trigger] numbers@[i] == order@[i],
        decreases order.len() - index,
    {
        numbers.push(order[index] as u64);
        index = index + 1;
    }
    numbers
}

/// The numbers of the widths.
fn width_numbers(widths: &[u32]) -> (numbers: Vec<u64>)
    ensures
        numbers@.len() == widths@.len(),
        forall|i: int| 0 <= i < widths@.len() ==> #[trigger] numbers@[i] == widths@[i],
{
    let mut numbers: Vec<u64> = Vec::new();
    let mut index: usize = 0;
    while index < widths.len()
        invariant
            index <= widths.len(),
            numbers@.len() == index,
            forall|i: int| 0 <= i < index ==> #[trigger] numbers@[i] == widths@[i],
        decreases widths.len() - index,
    {
        numbers.push(widths[index] as u64);
        index = index + 1;
    }
    numbers
}

/// What the script says of the modules and the model.
fn layout_part(settings: &Settings) -> (part: String)
    ensures
        part@ == layout_text(*settings),
{
    let order = place_numbers(settings.order.as_slice());
    let widths = width_numbers(settings.widths.as_slice());
    proof {
        assert(Seq::new(order@.len(), |i: int| order@[i] as nat) =~= places(settings.order@));
        assert(Seq::new(widths@.len(), |i: int| widths@[i] as nat) =~= sizes(settings.widths@));
    }
    let mut part = String::from_str("v:2,e:[");
    push_flags(&mut part, settings.runtime.enabled.as_slice());
    part.append("],o:[");
    push_numbers(&mut part, order.as_slice());
    part.append("],w:[");
    push_numbers(&mut part, widths.as_slice());
    part.append("],model:");
    part.append(quote(settings.model.as_str()).as_str());
    part
}

/// What the script says of the target, the look and the spectrum.
fn sound_part(settings: &Settings) -> (part: String)
    ensures
        part@ == sound_text(*settings),
{
    let mut part = String::from_str(",target:");
    push_signed(&mut part, settings.runtime.target_lufs as i32);
    part.append(",theme:");
    push_named(&mut part, settings.theme.name());
    part.append(",map:");
    push_named(&mut part, settings.color_map.name());
    part.append(",fps:");
    push_named(&mut part, settings.fps_limit.name());
    part.append(",route:");
    push_named(&mut part, settings.runtime.analysis_source.name());
    part.append(",trim:");
    push_signed(&mut part, settings.runtime.trim_db as i32);
    part.append(",fft:");
    push_decimal(&mut part, settings.runtime.fft_frames() as u64);
    part.append(",scale:");
    push_named(&mut part, settings.runtime.spectrum_scale.name());
    part.append(",style:");
    push_named(&mut part, settings.spectrum_style.name());
    part.append(",smooth:");
    push_signed(&mut part, settings.runtime.spectrum_smoothing as i32);
    part.append(",tilt:");
    push_signed(&mut part, settings.runtime.spectrum_tilt_db as i32);
    part.append(",hold:");
    part.append(bool_text(settings.runtime.spectrum_hold));
    part
}

/// What the script says of the needle, the oscilloscope, the loudness panels and the spectrogram.
fn panels_part(settings: &Settings) -> (part: String)
    ensures
        part@ == panels_text(*settings),
{
    let mut part = String::from_str(",vu:");
    push_named(&mut part, settings.runtime.vu_mode.name());
    part.append(",cal:");
    push_signed(&mut part, settings.runtime.vu_calibration as i32);
    part.append(",osc:");
    push_named(&mut part, settings.runtime.oscilloscope_mode.name());
    part.append(",cycles:");
    push_named(&mut part, settings.runtime.oscilloscope_cycles.name());
    part.append(",timeline:");
    part.append(bool_text(settings.runtime.loudness_timeline));
    part.append(",hist:");
    part.append(bool_text(settings.runtime.loudness_histogram));
    part.append(",overs:");
    part.append(bool_text(settings.runtime.loudness_overs));
    part.append(",sphist:");
    push_named(&mut part, settings.spectrogram_history.name());
    part.append(",speed:");
    push_signed(&mut part, settings.spectrogram_speed as i32);
    part.append(",loop:");
    part.append(bool_text(settings.spectrogram_loop));
    part.append(",timecode:");
    part.append(bool_text(settings.spectrogram_timecode));
    part
}

/// What the script says of the stereo panel, the waveform and the traces.
fn traces_part(settings: &Settings) -> (part: String)
    ensures
        part@ == traces_text(*settings),
{
    let mut part = String::from_str(",stereo:");
    push_named(&mut part, settings.stereo_style.name());
    part.append(",stereocolor:");
    push_named(&mut part, settings.stereo_color.name());
    part.append(",points:");
    push_named(&mut part, settings.point_size.name());
    part.append(",wavecolor:");
    push_named(&mut part, settings.waveform_color.name());
    part.append(",wavestyle:");
    push_named(&mut part, settings.waveform_style.name());
    part.append(",wavegain:");
    push_signed(&mut part, settings.waveform_gain as i32);
    part.append(",oscstyle:");
    push_named(&mut part, settings.oscilloscope_style.name());
    part.append(",oscgain:");
    push_signed(&mut part, settings.oscilloscope_gain as i32);
    part
}

/// What the script says of the readouts, the object and the arrangement.
fn view_part(settings: &Settings) -> (part: String)
    ensures
        part@ == view_text(*settings),
{
    let mut part = String::from_str(",trace:");
    part.append(bool_text(settings.spectrum_trace));
    part.append(",hover:");
    part.append(bool_text(settings.hover_readout));
    part.append(",chrome:");
    push_named(&mut part, settings.chrome.name());
    part.append(",oy:");
    push_signed(&mut part, settings.object_yaw_tenths as i32);
    part.append(",op:");
    push_signed(&mut part, settings.object_pitch_tenths as i32);
    part.append(",oz:");
    push_signed(&mut part, settings.object_zoom_tenths as i32);
    part.append(",ospin:");
    part.append(bool_text(settings.object_spin));
    part.append(",preset:");
    push_named(&mut part, settings.preset.name());
    part
}

impl Settings {
    /// The script that tells the page these settings.
    pub fn to_script(&self) -> (script: String)
        ensures
            script@ == settings_script(*self),
    {
        let mut script = String::from_str("window.__neta_settings&&window.__neta_settings({");
        script.append(layout_part(self).as_str());
        script.append(sound_part(self).as_str());
        script.append(panels_part(self).as_str());
        script.append(traces_part(self).as_str());
        script.append(view_part(self).as_str());
        script.append(",slots:[");
        push_literals(&mut script, self.slots.as_slice());
        script.append("]});");
        script
    }
}

/// The text of a state block: its bytes as UTF-8, or nothing where they are no
/// UTF-8.
pub open spec fn block_text(state: Seq<u8>) -> Seq<char> {
    if vstd::utf8::valid_utf8(state) {
        vstd::utf8::decode_utf8(state)
    } else {
        Seq::empty()
    }
}

/// `core::str::from_utf8` gives the text that the bytes spell in UTF-8, and an
/// error exactly where they are no UTF-8.
#[verifier::external_body]
fn decode(bytes: &[u8]) -> (text: Option<&str>)
    ensures
        match text {
            Some(text) => vstd::utf8::valid_utf8(bytes@) && text@ == vstd::utf8::decode_utf8(
                bytes@,
            ),
            None => !vstd::utf8::valid_utf8(bytes@),
        },
{
    core::str::from_utf8(bytes).ok()
}

/// The script that tells the page the settings of a state block. A block that is
/// no text counts as an empty one.
pub fn editor_script(state: &[u8]) -> (script: String)
    ensures
        exists|settings: Settings| #[trigger]
            settings_script(settings) == script@ && settings.reflects(
                entries(block_text(state@)),
            ) && settings.runtime.reflects(
                fields(vstd::utf8::encode_utf8(block_text(state@)), 0),
                version_of(fields(vstd::utf8::encode_utf8(block_text(state@)), 0)),
            ),
{
    let block: &str = match decode(state) {
        Some(block) => block,
        None => {
            proof {
                reveal_strlit("");
            }
            ""
        },
    };
    assert(block@ =~= block_text(state@));
    Settings::parse(block).to_script()
}

/// Whether a text says a piece somewhere.
pub open spec fn says(text: Seq<char>, piece: Seq<char>) -> bool {
    exists|at: int|
        0 <= at && at + piece.len() <= text.len() && #[trigger] text.subrange(
            at,
            at + piece.len(),
        ) == piece
}

/// What a text says it still says with more behind it, and it says what is behind it.
proof fn longer_texts_say_more(text: Seq<char>, more: Seq<char>)
    ensures
        forall|piece: Seq<char>| #[trigger] says(text, piece) ==> says(text + more, piece),
        forall|piece: Seq<char>| #[trigger] says(more, piece) ==> says(text + more, piece),
        says(text + more, more),
{
    let whole = text + more;
    assert forall|piece: Seq<char>| #[trigger] says(text, piece) implies says(whole, piece) by {
        let at = choose|at: int|
            0 <= at && at + piece.len() <= text.len() && #[trigger] text.subrange(
                at,
                at + piece.len(),
            ) == piece;
        assert(whole.subrange(at, at + piece.len()) =~= piece);
    }
    assert forall|piece: Seq<char>| #[trigger] says(more, piece) implies says(whole, piece) by {
        let at = choose|at: int|
            0 <= at && at + piece.len() <= more.len() && #[trigger] more.subrange(
                at,
                at + piece.len(),
            ) == piece;
        let place = text.len() + at;
        assert(whole.subrange(place, place + piece.len()) =~= piece);
    }
    let place = text.len() as int;
    assert(whole.subrange(place, place + more.len()) =~= more);
}

/// A value behind its name is said, and whatever was said before still is.
proof fn names_say_their_values(text: Seq<char>, name: Seq<char>, value: Seq<char>)
    ensures
        forall|piece: Seq<char>| #[trigger] says(text, piece) ==> says(text + name + value, piece),
        says(text + name + value, name + value),
{
    longer_texts_say_more(text, name + value);
    assert(text + (name + value) =~= text + name + value);
}

/// The script says under its own name what is chosen of the target, the look and the
/// spectrum.
pub proof fn sound_is_said(settings: Settings)
    ensures
        says(settings_script(settings), ",target:"@ + signed_text(settings.runtime.target_lufs as int)),
        says(settings_script(settings), ",theme:"@ + named(settings.theme.label())),
        says(settings_script(settings), ",map:"@ + named(settings.color_map.label())),
        says(settings_script(settings), ",fps:"@ + named(settings.fps_limit.label())),
        says(settings_script(settings), ",route:"@ + named(settings.runtime.analysis_source.label())),
        says(settings_script(settings), ",trim:"@ + signed_text(settings.runtime.trim_db as int)),
        says(settings_script(settings), ",fft:"@ + decimal_text(settings.runtime.fft_size.frame_count() as nat)),
        says(settings_script(settings), ",scale:"@ + named(settings.runtime.spectrum_scale.label())),
        says(settings_script(settings), ",style:"@ + named(settings.spectrum_style.label())),
        says(settings_script(settings), ",smooth:"@ + signed_text(settings.runtime.spectrum_smoothing as int)),
        says(settings_script(settings), ",tilt:"@ + signed_text(settings.runtime.spectrum_tilt_db as int)),
        says(settings_script(settings), ",hold:"@ + flag_text(settings.runtime.spectrum_hold)),
{
    let text = Seq::<char>::empty();
    names_say_their_values(text, ",target:"@, signed_text(settings.runtime.target_lufs as int));
    let text = text + ",target:"@ + signed_text(settings.runtime.target_lufs as int);
    names_say_their_values(text, ",theme:"@, named(settings.theme.label()));
    let text = text + ",theme:"@ + named(settings.theme.label());
    names_say_their_values(text, ",map:"@, named(settings.color_map.label()));
    let text = text + ",map:"@ + named(settings.color_map.label());
    names_say_their_values(text, ",fps:"@, named(settings.fps_limit.label()));
    let text = text + ",fps:"@ + named(settings.fps_limit.label());
    names_say_their_values(text, ",route:"@, named(settings.runtime.analysis_source.label()));
    let text = text + ",route:"@ + named(settings.runtime.analysis_source.label());
    names_say_their_values(text, ",trim:"@, signed_text(settings.runtime.trim_db as int));
    let text = text + ",trim:"@ + signed_text(settings.runtime.trim_db as int);
    names_say_their_values(text, ",fft:"@, decimal_text(settings.runtime.fft_size.frame_count() as nat));
    let text = text + ",fft:"@ + decimal_text(settings.runtime.fft_size.frame_count() as nat);
    names_say_their_values(text, ",scale:"@, named(settings.runtime.spectrum_scale.label()));
    let text = text + ",scale:"@ + named(settings.runtime.spectrum_scale.label());
    names_say_their_values(text, ",style:"@, named(settings.spectrum_style.label()));
    let text = text + ",style:"@ + named(settings.spectrum_style.label());
    names_say_their_values(text, ",smooth:"@, signed_text(settings.runtime.spectrum_smoothing as int));
    let text = text + ",smooth:"@ + signed_text(settings.runtime.spectrum_smoothing as int);
    names_say_their_values(text, ",tilt:"@, signed_text(settings.runtime.spectrum_tilt_db as int));
    let text = text + ",tilt:"@ + signed_text(settings.runtime.spectrum_tilt_db as int);
    names_say_their_values(text, ",hold:"@, flag_text(settings.runtime.spectrum_hold));
    let text = text + ",hold:"@ + flag_text(settings.runtime.spectrum_hold);
    assert(text =~= sound_text(settings));
    script_says_its_parts(settings);
    longer_texts_say_more(text, Seq::empty());
    assert(says(sound_text(settings), ",target:"@ + signed_text(settings.runtime.target_lufs as int)));
    assert(says(sound_text(settings), ",theme:"@ + named(settings.theme.label())));
    assert(says(sound_text(settings), ",map:"@ + named(settings.color_map.label())));
    assert(says(sound_text(settings), ",fps:"@ + named(settings.fps_limit.label())));
    assert(says(sound_text(settings), ",route:"@ + named(settings.runtime.analysis_source.label())));
    assert(says(sound_text(settings), ",trim:"@ + signed_text(settings.runtime.trim_db as int)));
    assert(says(sound_text(settings), ",fft:"@ + decimal_text(settings.runtime.fft_size.frame_count() as nat)));
    assert(says(sound_text(settings), ",scale:"@ + named(settings.runtime.spectrum_scale.label())));
    assert(says(sound_text(settings), ",style:"@ + named(settings.spectrum_style.label())));
    assert(says(sound_text(settings), ",smooth:"@ + signed_text(settings.runtime.spectrum_smoothing as int)));
    assert(says(sound_text(settings), ",tilt:"@ + signed_text(settings.runtime.spectrum_tilt_db as int)));
    assert(says(sound_text(settings), ",hold:"@ + flag_text(settings.runtime.spectrum_hold)));
}

/// The script says under its own name what is chosen of the needle, the oscilloscope, the
/// loudness panels and the spectrogram.
pub proof fn panels_are_said(settings: Settings)
    ensures
        says(settings_script(settings), ",vu:"@ + named(settings.runtime.vu_mode.label())),
        says(settings_script(settings), ",cal:"@ + signed_text(settings.runtime.vu_calibration as int)),
        says(settings_script(settings), ",osc:"@ + named(settings.runtime.oscilloscope_mode.label())),
        says(settings_script(settings), ",cycles:"@ + named(settings.runtime.oscilloscope_cycles.label())),
        says(settings_script(settings), ",timeline:"@ + flag_text(settings.runtime.loudness_timeline)),
        says(settings_script(settings), ",hist:"@ + flag_text(settings.runtime.loudness_histogram)),
        says(settings_script(settings), ",overs:"@ + flag_text(settings.runtime.loudness_overs)),
        says(settings_script(settings), ",sphist:"@ + named(settings.spectrogram_history.label())),
        says(settings_script(settings), ",speed:"@ + signed_text(settings.spectrogram_speed as int)),
        says(settings_script(settings), ",loop:"@ + flag_text(settings.spectrogram_loop)),
        says(settings_script(settings), ",timecode:"@ + flag_text(settings.spectrogram_timecode)),
{
    let text = Seq::<char>::empty();
    names_say_their_values(text, ",vu:"@, named(settings.runtime.vu_mode.label()));
    let text = text + ",vu:"@ + named(settings.runtime.vu_mode.label());
    names_say_their_values(text, ",cal:"@, signed_text(settings.runtime.vu_calibration as int));
    let text = text + ",cal:"@ + signed_text(settings.runtime.vu_calibration as int);
    names_say_their_values(text, ",osc:"@, named(settings.runtime.oscilloscope_mode.label()));
    let text = text + ",osc:"@ + named(settings.runtime.oscilloscope_mode.label());
    names_say_their_values(text, ",cycles:"@, named(settings.runtime.oscilloscope_cycles.label()));
    let text = text + ",cycles:"@ + named(settings.runtime.oscilloscope_cycles.label());
    names_say_their_values(text, ",timeline:"@, flag_text(settings.runtime.loudness_timeline));
    let text = text + ",timeline:"@ + flag_text(settings.runtime.loudness_timeline);
    names_say_their_values(text, ",hist:"@, flag_text(settings.runtime.loudness_histogram));
    let text = text + ",hist:"@ + flag_text(settings.runtime.loudness_histogram);
    names_say_their_values(text, ",overs:"@, flag_text(settings.runtime.loudness_overs));
    let text = text + ",overs:"@ + flag_text(settings.runtime.loudness_overs);
    names_say_their_values(text, ",sphist:"@, named(settings.spectrogram_history.label()));
    let text = text + ",sphist:"@ + named(settings.spectrogram_history.label());
    names_say_their_values(text, ",speed:"@, signed_text(settings.spectrogram_speed as int));
    let text = text + ",speed:"@ + signed_text(settings.spectrogram_speed as int);
    names_say_their_values(text, ",loop:"@, flag_text(settings.spectrogram_loop));
    let text = text + ",loop:"@ + flag_text(settings.spectrogram_loop);
    names_say_their_values(text, ",timecode:"@, flag_text(settings.spectrogram_timecode));
    let text = text + ",timecode:"@ + flag_text(settings.spectrogram_timecode);
    assert(text =~= panels_text(settings));
    script_says_its_parts(settings);
    longer_texts_say_more(text, Seq::empty());
    assert(says(panels_text(settings), ",vu:"@ + named(settings.runtime.vu_mode.label())));
    assert(says(panels_text(settings), ",cal:"@ + signed_text(settings.runtime.vu_calibration as int)));
    assert(says(panels_text(settings), ",osc:"@ + named(settings.runtime.oscilloscope_mode.label())));
    assert(says(panels_text(settings), ",cycles:"@ + named(settings.runtime.oscilloscope_cycles.label())));
    assert(says(panels_text(settings), ",timeline:"@ + flag_text(settings.runtime.loudness_timeline)));
    assert(says(panels_text(settings), ",hist:"@ + flag_text(settings.runtime.loudness_histogram)));
    assert(says(panels_text(settings), ",overs:"@ + flag_text(settings.runtime.loudness_overs)));
    assert(says(panels_text(settings), ",sphist:"@ + named(settings.spectrogram_history.label())));
    assert(says(panels_text(settings), ",speed:"@ + signed_text(settings.spectrogram_speed as int)));
    assert(says(panels_text(settings), ",loop:"@ + flag_text(settings.spectrogram_loop)));
    assert(says(panels_text(settings), ",timecode:"@ + flag_text(settings.spectrogram_timecode)));
}

/// The script says under its own name what is chosen of the stereo panel, the waveform and
/// the traces.
pub proof fn traces_are_said(settings: Settings)
    ensures
        says(settings_script(settings), ",stereo:"@ + named(settings.stereo_style.label())),
        says(settings_script(settings), ",stereocolor:"@ + named(settings.stereo_color.label())),
        says(settings_script(settings), ",points:"@ + named(settings.point_size.label())),
        says(settings_script(settings), ",wavecolor:"@ + named(settings.waveform_color.label())),
        says(settings_script(settings), ",wavestyle:"@ + named(settings.waveform_style.label())),
        says(settings_script(settings), ",wavegain:"@ + signed_text(settings.waveform_gain as int)),
        says(settings_script(settings), ",oscstyle:"@ + named(settings.oscilloscope_style.label())),
        says(settings_script(settings), ",oscgain:"@ + signed_text(settings.oscilloscope_gain as int)),
{
    let text = Seq::<char>::empty();
    names_say_their_values(text, ",stereo:"@, named(settings.stereo_style.label()));
    let text = text + ",stereo:"@ + named(settings.stereo_style.label());
    names_say_their_values(text, ",stereocolor:"@, named(settings.stereo_color.label()));
    let text = text + ",stereocolor:"@ + named(settings.stereo_color.label());
    names_say_their_values(text, ",points:"@, named(settings.point_size.label()));
    let text = text + ",points:"@ + named(settings.point_size.label());
    names_say_their_values(text, ",wavecolor:"@, named(settings.waveform_color.label()));
    let text = text + ",wavecolor:"@ + named(settings.waveform_color.label());
    names_say_their_values(text, ",wavestyle:"@, named(settings.waveform_style.label()));
    let text = text + ",wavestyle:"@ + named(settings.waveform_style.label());
    names_say_their_values(text, ",wavegain:"@, signed_text(settings.waveform_gain as int));
    let text = text + ",wavegain:"@ + signed_text(settings.waveform_gain as int);
    names_say_their_values(text, ",oscstyle:"@, named(settings.oscilloscope_style.label()));
    let text = text + ",oscstyle:"@ + named(settings.oscilloscope_style.label());
    names_say_their_values(text, ",oscgain:"@, signed_text(settings.oscilloscope_gain as int));
    let text = text + ",oscgain:"@ + signed_text(settings.oscilloscope_gain as int);
    assert(text =~= traces_text(settings));
    script_says_its_parts(settings);
    longer_texts_say_more(text, Seq::empty());
    assert(says(traces_text(settings), ",stereo:"@ + named(settings.stereo_style.label())));
    assert(says(traces_text(settings), ",stereocolor:"@ + named(settings.stereo_color.label())));
    assert(says(traces_text(settings), ",points:"@ + named(settings.point_size.label())));
    assert(says(traces_text(settings), ",wavecolor:"@ + named(settings.waveform_color.label())));
    assert(says(traces_text(settings), ",wavestyle:"@ + named(settings.waveform_style.label())));
    assert(says(traces_text(settings), ",wavegain:"@ + signed_text(settings.waveform_gain as int)));
    assert(says(traces_text(settings), ",oscstyle:"@ + named(settings.oscilloscope_style.label())));
    assert(says(traces_text(settings), ",oscgain:"@ + signed_text(settings.oscilloscope_gain as int)));
}

/// The script says under its own name what is chosen of the readouts, the object and the
/// arrangement.
pub proof fn views_are_said(settings: Settings)
    ensures
        says(settings_script(settings), ",trace:"@ + flag_text(settings.spectrum_trace)),
        says(settings_script(settings), ",hover:"@ + flag_text(settings.hover_readout)),
        says(settings_script(settings), ",chrome:"@ + named(settings.chrome.label())),
        says(settings_script(settings), ",oy:"@ + signed_text(settings.object_yaw_tenths as int)),
        says(settings_script(settings), ",op:"@ + signed_text(settings.object_pitch_tenths as int)),
        says(settings_script(settings), ",oz:"@ + signed_text(settings.object_zoom_tenths as int)),
        says(settings_script(settings), ",ospin:"@ + flag_text(settings.object_spin)),
        says(settings_script(settings), ",preset:"@ + named(settings.preset.label())),
{
    let text = Seq::<char>::empty();
    names_say_their_values(text, ",trace:"@, flag_text(settings.spectrum_trace));
    let text = text + ",trace:"@ + flag_text(settings.spectrum_trace);
    names_say_their_values(text, ",hover:"@, flag_text(settings.hover_readout));
    let text = text + ",hover:"@ + flag_text(settings.hover_readout);
    names_say_their_values(text, ",chrome:"@, named(settings.chrome.label()));
    let text = text + ",chrome:"@ + named(settings.chrome.label());
    names_say_their_values(text, ",oy:"@, signed_text(settings.object_yaw_tenths as int));
    let text = text + ",oy:"@ + signed_text(settings.object_yaw_tenths as int);
    names_say_their_values(text, ",op:"@, signed_text(settings.object_pitch_tenths as int));
    let text = text + ",op:"@ + signed_text(settings.object_pitch_tenths as int);
    names_say_their_values(text, ",oz:"@, signed_text(settings.object_zoom_tenths as int));
    let text = text + ",oz:"@ + signed_text(settings.object_zoom_tenths as int);
    names_say_their_values(text, ",ospin:"@, flag_text(settings.object_spin));
    let text = text + ",ospin:"@ + flag_text(settings.object_spin);
    names_say_their_values(text, ",preset:"@, named(settings.preset.label()));
    let text = text + ",preset:"@ + named(settings.preset.label());
    assert(text =~= view_text(settings));
    script_says_its_parts(settings);
    longer_texts_say_more(text, Seq::empty());
    assert(says(view_text(settings), ",trace:"@ + flag_text(settings.spectrum_trace)));
    assert(says(view_text(settings), ",hover:"@ + flag_text(settings.hover_readout)));
    assert(says(view_text(settings), ",chrome:"@ + named(settings.chrome.label())));
    assert(says(view_text(settings), ",oy:"@ + signed_text(settings.object_yaw_tenths as int)));
    assert(says(view_text(settings), ",op:"@ + signed_text(settings.object_pitch_tenths as int)));
    assert(says(view_text(settings), ",oz:"@ + signed_text(settings.object_zoom_tenths as int)));
    assert(says(view_text(settings), ",ospin:"@ + flag_text(settings.object_spin)));
    assert(says(view_text(settings), ",preset:"@ + named(settings.preset.label())));
}

/// The script says all of its parts.
proof fn script_says_its_parts(settings: Settings)
    ensures
        forall|piece: Seq<char>| #[trigger]
            says(layout_text(settings), piece) ==> says(settings_script(settings), piece),
        forall|piece: Seq<char>| #[trigger]
            says(sound_text(settings), piece) ==> says(settings_script(settings), piece),
        forall|piece: Seq<char>| #[trigger]
            says(panels_text(settings), piece) ==> says(settings_script(settings), piece),
        forall|piece: Seq<char>| #[trigger]
            says(traces_text(settings), piece) ==> says(settings_script(settings), piece),
        forall|piece: Seq<char>| #[trigger]
            says(view_text(settings), piece) ==> says(settings_script(settings), piece),
{
    let a = "window.__neta_settings&&window.__neta_settings({"@;
    let b = a + layout_text(settings);
    let c = b + sound_text(settings);
    let d = c + panels_text(settings);
    let e = d + traces_text(settings);
    let f = e + view_text(settings);
    let g = f + ",slots:["@;
    let h = g + literals_text(texts(settings.slots@));
    longer_texts_say_more(a, layout_text(settings));
    longer_texts_say_more(b, sound_text(settings));
    longer_texts_say_more(c, panels_text(settings));
    longer_texts_say_more(d, traces_text(settings));
    longer_texts_say_more(e, view_text(settings));
    longer_texts_say_more(f, ",slots:["@);
    longer_texts_say_more(g, literals_text(texts(settings.slots@)));
    longer_texts_say_more(h, "]});"@);
}

/// The script lists the modules that are on, the order and the widths, each with commas
/// between, and says the model as a string literal.
pub proof fn layout_is_said(settings: Settings)
    ensures
        says(
            settings_script(settings),
            "e:["@ + flags_text(settings.runtime.enabled@) + "],o:["@,
        ),
        says(
            settings_script(settings),
            "],o:["@ + numbers_text(places(settings.order@)) + "],w:["@,
        ),
        says(
            settings_script(settings),
            "],w:["@ + numbers_text(sizes(settings.widths@)) + "],model:"@,
        ),
        says(settings_script(settings), "],model:"@ + quoted(settings.model@)),
{
    let first = "v:2,e:["@;
    let flags = flags_text(settings.runtime.enabled@);
    let order = numbers_text(places(settings.order@));
    let widths = numbers_text(sizes(settings.widths@));
    let model = quoted(settings.model@);
    let whole = layout_text(settings);
    reveal_strlit("v:2,e:[");
    reveal_strlit("e:[");
    script_says_its_parts(settings);
    let one = "e:["@ + flags + "],o:["@;
    let start = 4int;
    assert(whole.subrange(start, start + one.len()) =~= one);
    assert(says(whole, one));
    let two = "],o:["@ + order + "],w:["@;
    let at = (first + flags).len() as int;
    assert(whole.subrange(at, at + two.len()) =~= two);
    assert(says(whole, two));
    let three = "],w:["@ + widths + "],model:"@;
    let behind = (first + flags + "],o:["@ + order).len() as int;
    assert(whole.subrange(behind, behind + three.len()) =~= three);
    assert(says(whole, three));
    let four = "],model:"@ + model;
    let last = (first + flags + "],o:["@ + order + "],w:["@ + widths).len() as int;
    assert(whole.subrange(last, last + four.len()) =~= four);
    assert(says(whole, four));
}

/// Lists of the script part again at their commas: as many texts as there are modules, in
/// their order, and numbers in digits that are read back as they are.
pub proof fn lists_part_again(flags: Seq<bool>, numbers: Seq<nat>, i: int)
    requires
        flags.len() > 0,
        numbers.len() > 0,
        0 <= i,
    ensures
        crate::text::parts(flags_text(flags), ',', 0).len() == flags.len(),
        i < flags.len() ==> crate::text::parts(flags_text(flags), ',', 0)[i] == (if flags[i] {
            "true"@
        } else {
            "false"@
        }),
        crate::text::parts(numbers_text(numbers), ',', 0).len() == numbers.len(),
        i < numbers.len() ==> crate::text::unsigned_value(
            crate::text::parts(numbers_text(numbers), ',', 0)[i],
            numbers[i],
        ) == Some(numbers[i]),
{
    reveal_strlit("true");
    reveal_strlit("false");
    let words = Seq::new(flags.len(), |k: int| flag_text(flags[k]));
    assert forall|k: int| 0 <= k < words.len() implies !(#[trigger] words[k]).contains(',') by {
        assert(!"true"@.contains(',') && !"false"@.contains(','));
    }
    crate::model::joined_texts_part_again(words);
    let digits = Seq::new(numbers.len(), |k: int| decimal_text(numbers[k]));
    assert forall|k: int| 0 <= k < digits.len() implies !(#[trigger] digits[k]).contains(',') by {
        crate::text::decimal_round_trip(numbers[k]);
        if digits[k].contains(',') {
            let place = digits[k].index_of(',');
            assert(crate::text::is_digit(digits[k][place]));
        }
    }
    crate::model::joined_texts_part_again(digits);
    if i < numbers.len() {
        crate::text::written_numbers_are_read_back(numbers[i], numbers[i]);
    }
}

} // verus!
