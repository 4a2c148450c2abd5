use base64::STANDARD;
use neta::editor::frame::{frame, SCOPE_BYTES};
use neta::editor::page::html;
use neta::editor::slots::{
    page, GONIOMETER, METRICS_END, SCOPE_SLOTS, SPECTRUM, SPECTRUM_POINTS, SPECTRUM_SLOT_FLOOR_DB,
    SPECTRUM_SLOT_RANGE_DB, UNMEASURED_DB, WAVE_MAX, WAVE_MIN, WAVE_POINTS,
};
use neta::settings::runtime::modules;

#[test]
fn page_is_self_contained_and_frame_layout_is_bounded() {
    let html = html();
    assert!(!html.contains("http://"));
    assert!(!html.contains("https://"));
    let payload = frame(&[0.0_f32.to_bits(); SCOPE_SLOTS]).expect("fixed 896-slot payload");
    assert!(payload.starts_with("window.__neta_frame&&window.__neta_frame(\""));
    assert!(payload.ends_with("\");"));
    let encoded = payload
        .strip_prefix("window.__neta_frame&&window.__neta_frame(\"")
        .and_then(|text| text.strip_suffix("\");"))
        .expect("base64 frame wrapper");
    assert_eq!(
        base64::decode_config(encoded, STANDARD).unwrap().len(),
        SCOPE_BYTES
    );
    assert!(frame(&[]).is_none());
    assert_eq!(WAVE_MAX - WAVE_MIN, WAVE_POINTS);
    assert_eq!(GONIOMETER, SPECTRUM + SPECTRUM_POINTS);
}

#[test]
fn minimum_geometry_keeps_the_horizontal_rail_legible() {
    let html = html();
    assert_eq!(page().width, 1_440);
    assert_eq!(page().height, 440);
    assert_eq!(page().minimum, Some((960, 240)));
    assert!(html.contains(".row { display:flex"));
    assert!(html.contains(".grip {\n    flex:0 0 8px"));
    assert!(!html.contains("grid-template-areas:"));
    assert!(!html.contains("@media (max-height:420px)"));
    assert!(html.contains("window.addEventListener(\"resize\",resized)"));
}

#[test]
fn meters_are_vertical_and_settings_open_inside_the_available_viewport() {
    let html = html();
    assert!(html.contains("Four vertical strips share one dB axis"));
    assert!(html.contains("const y=db=>floor-norm(db)*plotH"));
    assert!(html.contains("Calibrated L/R strips"));
    assert!(html.contains("@media (max-height:560px)"));
    // Settings are a drawer inside the shell's grid, never an overlay: the
    // meters have to stay live and visible while they are being tuned, and
    // the drawer's columns have to multiply with the width rather than the
    // groups stacking into a screen you must maximise the window to read.
    assert!(!html.contains("position:fixed; inset:0"));
    assert!(!html.contains("aria-modal"));
    assert!(html.contains(".shell.tuning { grid-template-rows:auto minmax(74px,1fr) minmax(0,auto) auto; }"));
    assert!(html.contains("grid-template-columns:repeat(auto-fit,minmax(196px,1fr))"));
    assert!(html.contains("shell.classList.toggle(\"tuning\",open)"));
    // Opening or closing it resizes every canvas, so the fit cache has to
    // be retired in the same turn or the next frame draws into stale
    // backing stores and the panels tear.
    assert!(html.contains("invalidateCanvases();\n    layout();\n    requestDraw();"));
    // One tab at a time is what keeps the drawer short.
    let tabs = ["layout", "view", "analysis", "loudness", "scopes", "stereo", "presets"];
    for tab in tabs {
        assert!(
            html.contains(&format!("data-tab=\"{tab}\"")),
            "settings lost the {tab} tab"
        );
    }
    assert!(html.contains("function selectTab(name)"));
}

#[test]
fn rail_restores_user_order_width_and_keeps_visuals_opt_in() {
    let html = html();
    assert!(html.contains("function makeGrip(left,right)"));
    // The arrow-and-number list is gone: headers drag, dividers resize.
    // Leaving both paths in means two ways to do one thing, and the one in
    // the drawer is the worse one.
    assert!(!html.contains("moduleRows"));
    assert!(!html.contains("function buildRows()"));
    // Order and visibility are reachable from the rail itself: drag a
    // panel's header to move it, hit its cross to hide it.
    assert!(html.contains("function dropSlot(clientX)"));
    assert!(html.contains("function setVisibleOrder(nextVisible)"));
    assert!(html.contains("cap.setPointerCapture(event.pointerId)"));
    assert!(html.contains("class=\"capHide\"") || html.contains("hide.className=\"capHide\""));
    // `order` carries the hidden modules too, so a drop has to write the
    // rebuilt visible sequence back over the visible positions and leave
    // the hidden ones where they were.
    assert!(html.contains("order.map(module=>(enabled[module]?nextVisible[cursor++]:module))"));
    // Bare chrome is the default look: no panel borders, no fill, and a
    // header only under the pointer. A transparent caption that still ate
    // pointer events would silently break the hover readout and the
    // object's orbit across the top of every canvas.
    assert!(html.contains("let theme=\"midnight\"") || html.contains("chrome=\"bare\""));
    assert!(html.contains(".shell[data-chrome=\"bare\"] .box {"));
    assert!(html.contains("opacity:0; pointer-events:none; transition:opacity .12s;"));
    assert!(html.contains("opacity:1; pointer-events:auto;"));
    assert!(html.contains("shell.dataset.chrome=chrome"));
    assert!(html.contains("box.style.flexGrow=widths[module]"));
    assert!(html.contains("const visible=order.filter(module=>enabled[module])"));
    assert!(!html.contains("loudnessHistory"));
    assert!(html.contains("id=\"targetChips\""));
    assert!(html.contains("const TARGETS=[-24,-23,-16,-14,-9]"));
    assert!(html.contains("let enabled=MODULES.map(name=>name!==\"visuals\")"));
    assert!(html.contains("isolated from metering · opt in from settings"));
}

#[test]
fn object_orbits_under_mouse_without_cancelling_auto_spin() {
    let html = html();
    assert!(html.contains("objectCanvas.addEventListener(\"pointerdown\""));
    assert!(html.contains("objectYaw+=(event.clientX-objectX)*.012"));
    // Orbit is an offset on top of programme motion, and switching the spin
    // off has to leave the model where it was dragged rather than snapping
    // the accumulated turn back to zero.
    assert!(html.contains("(objectSpin?now*.00036:0)+objectYaw"));
    assert!(html.contains("function scheduleObjectSpin()"));
    assert!(html.contains("uniform float turn, pitch, scatter, size, aspect, zoom;"));
    assert!(html.contains("lostpointercapture"));
    // Zoom has to take the gesture from the page: an unprevented trackpad
    // pinch zooms the whole editor, and a plugin window has no way back.
    assert!(html.contains("objectCanvas.addEventListener(\"wheel\""));
    assert!(html.contains("{passive:false}"));
    assert!(html.contains("OBJECT_ZOOM_MIN=0.5, OBJECT_ZOOM_MAX=4"));
}

#[test]
fn frame_work_is_coalesced_and_spectrogram_avoids_pixel_allocations() {
    let html = html();
    assert!(html.contains("let RENDER_MS=0"));
    assert!(html.contains("function refreshRenderRate()"));
    assert!(html.contains("requestAnimationFrame"));
    assert!(html.contains("const base64Bytes=new Uint8Array(SCOPE_BYTES)"));
    assert!(html.contains("function decodeBase64Frame(encoded)"));
    assert!(html.contains("const heatLut=new Uint8ClampedArray"));
    assert!(html.contains("const fitCache=new WeakMap"));
    assert!(html.contains("if(!spectrumHold){ updateSpectrum(); pushSpectrogram(); }"));
    assert!(html.contains("new ResizeObserver(resized).observe(row)"));
    assert!(!html.contains("history.shift()"));
    assert!(!html.contains("function heat(t)"));
}

/// The page reads slots the plugin actually publishes. A drifting index
/// map draws the wrong number confidently, which is worse than a gap.
#[test]
fn the_page_and_the_plugin_agree_on_the_metric_slots() {
    let html = html();
    for (name, index) in [
        ("m:0", 0),
        ("s:1", 1),
        ("tp:2", 2),
        ("int:10", 10),
        ("lra:11", 11),
        ("plr:12", 12),
    ] {
        assert!(html.contains(name), "the page lost slot {name}");
        assert!(
            index < METRICS_END,
            "slot {index} is outside the metric block"
        );
    }
    assert!(
        html.contains("waveMin:288")
            && html.contains("oscilloscope:416")
            && html.contains("spectrum:672")
            && html.contains("gonio:768"),
        "the page's block offsets must match the plugin's"
    );
}

/// The spectrum axis is a contract split across two files: the plugin
/// encodes each band as `(dBFS + 120) / 120`, and the page turns that back
/// into dB to place its grid, its labels and its tilt. Change the encoding
/// on one side alone and nothing fails — the panel just draws a plausible
/// plot against the wrong numbers, which is the failure that is hardest to
/// notice and worst to trust.
#[test]
fn the_page_decodes_the_spectrum_exactly_as_the_plugin_encodes_it() {
    let html = html();
    assert_eq!(
        (SPECTRUM_SLOT_FLOOR_DB, SPECTRUM_SLOT_RANGE_DB),
        (-120, 120),
        "the plugin's spectrum encoding moved"
    );
    assert!(
        html.contains("SLOT_FLOOR_DB=-120, SLOT_RANGE_DB=120"),
        "the page no longer decodes the plugin's spectrum encoding"
    );
    // The plotted window has to sit inside what the encoding can carry,
    // otherwise part of the panel is reserved for levels that cannot
    // arrive.
    assert!(
        html.contains("SPECTRUM_TOP_DB=0, SPECTRUM_FLOOR_DB=-90"),
        "the page's plotted dB window moved"
    );
    // Decade marks are derived, never literal. They used to be hardcoded
    // at 0.24 / 0.5 / 0.79 of the width, and on a 20 Hz - 20 kHz log rail
    // 1 k belongs at 0.566 and 10 k at 0.900.
    assert!(
        html.contains("function bandPosition(hz)")
            && html.contains("bandPosition(hz)*w"),
        "the frequency axis must be derived from the analyzer's scale"
    );
}

#[test]
fn settings_expose_p1_controls_and_automatable_actions() {
    let html = html();
    for id in [
        "themeChips",
        "mapChips",
        "fpsChips",
        "routeChips",
        "fftChips",
        "scaleChips",
        "styleChips",
        "vuChips",
        "oscChips",
        "loudnessChips",
        "spectrogramChips",
        "stereoStyleChips",
        "presetChips",
        "slotChips",
    ] {
        assert!(html.contains(id), "missing setting control {id}");
    }
    assert!(html.contains("window.__seco_update=params=>"));
    assert!(html.contains("post(\"begin \"+index)"));
    assert!(html.contains("function saveSlot(index)"));
    assert!(html.contains("function loadSlot(index)"));
    assert!(html.contains("!/[;\\n\\r]/.test(slot)"));
}

/// The sentinel is the contract between the two files: the plugin sends
/// a very low number for "no programme yet", and the page must treat it
/// as absent rather than draw it as a reading.
#[test]
fn the_page_rejects_the_unmeasured_sentinel() {
    let html = html();
    let threshold: f32 = html
        .split("UNMEASURED=")
        .nth(1)
        .and_then(|rest| rest.split(';').next())
        .expect("the page must define UNMEASURED")
        .trim()
        .parse()
        .expect("the page's UNMEASURED must be a number");
    assert!(
        (UNMEASURED_DB as f32) < threshold,
        "the plugin sends {}, which the page would treat as a real value \
         (its threshold is {threshold})",
        UNMEASURED_DB
    );
}

/// The GLSL lives inside JavaScript template literals, so a stray
/// backtick in a shader — a comment quoting an identifier, say — closes
/// the literal and takes the whole page down with a syntax error that
/// points nowhere near the cause.
#[test]
fn the_shaders_carry_no_backticks() {
    let html = html();
    let mut rest = html.as_str();
    let mut checked = 0;
    while let Some((_, after)) = rest.split_once("=`") {
        let (shader, remainder) = after
            .split_once('`')
            .expect("unterminated template literal");
        if shader.contains("gl_Position") || shader.contains("gl_FragColor") {
            assert!(
                !shader.contains('`'),
                "a shader contains a backtick and would close its template literal"
            );
            checked += 1;
        }
        rest = remainder;
    }
    assert_eq!(checked, 2, "expected to find both shaders");
}

/// The chips, the state block and the plugin's module list are three
/// copies of one order. Disagreement silently rearranges a user's layout.
#[test]
fn the_page_and_the_state_block_agree_on_the_module_order() {
    let html = html();
    let listed = html
        .split("const MODULES=[")
        .nth(1)
        .and_then(|rest| rest.split(']').next())
        .expect("the page must list its modules");
    for module in modules() {
        assert!(
            listed.contains(&format!("\"{module}\"")),
            "the page is missing the {module} module"
        );
    }
    assert_eq!(
        listed.matches('"').count() / 2,
        modules().len(),
        "the page and the state block list different modules"
    );
}

#[test]
fn frames_carry_every_bit_of_the_picture() {
    let mut picture: Vec<u32> = (0..SCOPE_SLOTS as u32)
        .map(|slot| slot.wrapping_mul(0x9e37_79b9) ^ 0x7fc0_0001)
        .collect();
    picture.push(7);
    let script = frame(&picture).unwrap();
    let encoded = script
        .strip_prefix("window.__neta_frame&&window.__neta_frame(\"")
        .and_then(|text| text.strip_suffix("\");"))
        .unwrap();
    let bytes = base64::decode_config(encoded, STANDARD).unwrap();
    for (slot, expected) in picture.iter().take(SCOPE_SLOTS).enumerate() {
        let four = [bytes[4 * slot], bytes[4 * slot + 1], bytes[4 * slot + 2], bytes[4 * slot + 3]];
        assert_eq!(u32::from_le_bytes(four), *expected);
    }
    assert!(frame(&picture[..SCOPE_SLOTS - 1]).is_none());
}
