//! The page of the compatibility editor: markup, style and script.
//!
//! One horizontal rail: every module stays side by side. Spectrum and time read
//! left to right; Loudness and VU read level bottom to top. Dividers let the
//! user give room to whichever instrument matters now.

pub mod markup;
pub mod object_script;
pub mod script;
pub mod settings_script;
pub mod style;

use crate::editor::page::markup::{MARKUP_RAIL, MARKUP_SETTINGS};
use crate::editor::page::object_script::{
    SCRIPT_FRAMES, SCRIPT_OBJECT, SCRIPT_ORBIT, SCRIPT_READOUTS,
};
use crate::editor::page::script::{
    SCRIPT_AXES, SCRIPT_LEVELS, SCRIPT_OSCILLOSCOPE, SCRIPT_SPECTROGRAM, SCRIPT_SPECTRUM, SCRIPT_STATE, SCRIPT_STEREO,
};
use crate::editor::page::settings_script::{
    SCRIPT_CHOICES, SCRIPT_ENTRY, SCRIPT_GRIPS, SCRIPT_SLOTS,
};
use crate::editor::page::style::{STYLE_SETTINGS, STYLE_SHELL};
use vstd::prelude::*;

verus! {

/// The style and the markup of the page.
pub open spec fn page_head() -> Seq<char> {
    STYLE_SHELL@ + STYLE_SETTINGS@ + MARKUP_RAIL@ + MARKUP_SETTINGS@
}

/// The script of the page.
pub open spec fn page_script() -> Seq<char> {
    SCRIPT_STATE@
        + SCRIPT_AXES@
        + SCRIPT_LEVELS@
        + SCRIPT_SPECTRUM@
        + SCRIPT_SPECTROGRAM@
        + SCRIPT_OSCILLOSCOPE@
        + SCRIPT_STEREO@
        + SCRIPT_OBJECT@
        + SCRIPT_ORBIT@
        + SCRIPT_READOUTS@
        + SCRIPT_FRAMES@
        + SCRIPT_CHOICES@
        + SCRIPT_SLOTS@
        + SCRIPT_GRIPS@
        + SCRIPT_ENTRY@
}

/// The page. It fetches nothing: everything it draws comes from the frames and
/// settings that are handed to it.
pub fn html() -> (page: String)
    ensures
        page@ == page_head() + page_script(),
{
    let mut script = String::from_str(SCRIPT_STATE);
    script.append(SCRIPT_AXES);
    script.append(SCRIPT_LEVELS);
    script.append(SCRIPT_SPECTRUM);
    script.append(SCRIPT_SPECTROGRAM);
    script.append(SCRIPT_OSCILLOSCOPE);
    script.append(SCRIPT_STEREO);
    script.append(SCRIPT_OBJECT);
    script.append(SCRIPT_ORBIT);
    script.append(SCRIPT_READOUTS);
    script.append(SCRIPT_FRAMES);
    script.append(SCRIPT_CHOICES);
    script.append(SCRIPT_SLOTS);
    script.append(SCRIPT_GRIPS);
    script.append(SCRIPT_ENTRY);
    let mut page = String::from_str(STYLE_SHELL);
    page.append(STYLE_SETTINGS);
    page.append(MARKUP_RAIL);
    page.append(MARKUP_SETTINGS);
    page.append(script.as_str());
    page
}

} // verus!
