use neta::settings::fields::next_field;
use neta::settings::layout::{parse_order, parse_widths};
use neta::settings::options::{
    AnalysisSource, BuiltinPreset, Chrome, ColorMap, FftSize, FpsLimit, OscilloscopeCycles,
    OscilloscopeMode, OscilloscopeStyle, PointSize, SpectrogramHistory, SpectrumScale,
    SpectrumStyle, StereoColor, StereoStyle, Theme, VuMode, WaveformColor, WaveformStyle,
};
use neta::settings::runtime::RuntimeSettings;
use neta::settings::script::editor_script;
use neta::settings::state::Settings;

#[test]
fn v1_keeps_legacy_module_positions_and_new_defaults() {
    let runtime = RuntimeSettings::parse(b"m=0101010;target=-23");
    assert!(!runtime.module_enabled(0));
    assert!(runtime.module_enabled(1));
    assert!(!runtime.module_enabled(2));
    assert!(runtime.module_enabled(3));
    assert!(!runtime.module_enabled(4));
    assert!(runtime.module_enabled(5));
    assert!(!runtime.module_enabled(6));
    assert!(runtime.module_enabled(7));
    assert!(runtime.module_enabled(8));
    assert_eq!(runtime.target_lufs, -23);
}

#[test]
fn v2_runtime_parser_is_total_and_copy_only() {
    let runtime = RuntimeSettings::parse(b"v=2;m=101010101;route=side;trim=24;fft=16384;scale=mel;smooth=0;tilt=-18;hold=1;vu=peak;cal=-24;osc=free;cycles=single;timeline=0;hist=0;overs=0;target=-9");
    assert_eq!(runtime.analysis_source, AnalysisSource::Side);
    assert_eq!(runtime.fft_index(), 4);
    assert_eq!(runtime.spectrum_scale, SpectrumScale::Mel);
    assert_eq!(runtime.vu_mode, VuMode::Peak);
    assert_eq!(runtime.oscilloscope_mode, OscilloscopeMode::Free);
    assert_eq!(runtime.oscilloscope_cycles, OscilloscopeCycles::Single);
    assert!(runtime.module_enabled(8));
    assert_eq!(
        RuntimeSettings::parse(b"trim=99;route=nope"),
        RuntimeSettings::default()
    );
}

#[test]
fn settings_persist_global_module_and_slot_choices() {
    let settings = Settings::parse(
        "v=2;m=111111110;o=071238456;w=100,101,102,103,104,105,106,107,108;model=/tmp/a.obj;theme=coal;map=viridis;fps=30;route=mid;trim=-3;fft=4096;scale=linear;style=bars;smooth=40;tilt=4;hold=1;vu=rms;cal=-20;osc=free;cycles=single;timeline=0;hist=0;overs=1;sphist=slow;speed=3;loop=1;timecode=1;stereo=vectorscope;stereocolor=rgb;points=large;wavecolor=amber;oy=120;op=-40;preset=master;slot0=user-layout",
    );
    assert_eq!(settings.runtime.analysis_source, AnalysisSource::Mid);
    assert_eq!(settings.fps_limit, FpsLimit::Fps30);
    assert_eq!(settings.spectrum_style, SpectrumStyle::Bars);
    assert_eq!(settings.waveform_color, WaveformColor::Amber);
    assert_eq!(settings.slots[0], "user-layout");
    let script = settings.to_script();
    assert!(script.contains("v:2"));
    assert!(script.contains("fft:4096"));
    assert!(script.contains("wavecolor:\"amber\""));
    assert!(script.contains("slots:[\"user-layout\""));
}

#[test]
fn layout_rejects_missing_and_duplicate_values() {
    assert_eq!(parse_order("01234567"), None);
    assert_eq!(parse_order("071238456"), Some([0, 7, 1, 2, 3, 8, 4, 5, 6]));
    assert_eq!(parse_order("012345667"), None);
    assert_eq!(parse_widths("100,101,102"), None);
}

#[test]
fn user_slot_keeps_base64_padding() {
    let settings = Settings::parse("v=2;slot0=eyJ2IjoyfQ==");
    assert_eq!(settings.slots[0], "eyJ2IjoyfQ==");
    assert!(settings.to_script().contains("eyJ2IjoyfQ=="));
}

#[test]
fn default_script_is_exact() {
    assert_eq!(
        Settings::default().to_script(),
        "window.__neta_settings&&window.__neta_settings({v:2,e:[true,true,true,true,true,true,false,true,true],o:[0,7,1,2,3,8,4,5,6],w:[150,120,220,180,180,180,160,120,170],model:\"\",target:-14,theme:\"midnight\",map:\"neta\",fps:\"vsync\",route:\"stereo\",trim:0,fft:2048,scale:\"log\",style:\"both\",smooth:90,tilt:0,hold:false,vu:\"vu\",cal:-18,osc:\"pitch\",cycles:\"multi\",timeline:true,hist:true,overs:true,sphist:\"fast\",speed:4,loop:true,timecode:false,stereo:\"linear\",stereocolor:\"static\",points:\"auto\",wavecolor:\"pink\",wavestyle:\"band\",wavegain:1,oscstyle:\"overlay\",oscgain:1,trace:true,hover:true,chrome:\"bare\",oy:0,op:0,oz:10,ospin:true,preset:\"default\",slots:[\"\",\"\",\"\",\"\"]});"
    );
}

#[test]
fn last_readable_value_wins_and_unreadable_ones_are_passed_over() {
    let runtime = RuntimeSettings::parse(b"trim=3;trim=-7;trim=25;trim=+4;trim=");
    assert_eq!(runtime.trim_db, -7);
    let settings = Settings::parse("theme=coal;theme=mono;theme=pink;oz=+40;oz=41;speed=0;speed=2");
    assert_eq!(settings.theme, Theme::Mono);
    assert_eq!(settings.object_zoom_tenths, 40);
    assert_eq!(settings.spectrogram_speed, 2);
}

#[test]
fn a_field_without_equals_ends_the_audio_threads_list_only() {
    let settings = Settings::parse("trim=5;oops;tilt=7;chrome=framed");
    assert_eq!(settings.runtime.trim_db, 5);
    assert_eq!(settings.runtime.spectrum_tilt_db, 0);
    assert_eq!(settings.chrome, Chrome::Framed);
}

#[test]
fn numbers_are_read_within_their_ranges() {
    assert_eq!(RuntimeSettings::parse(b"smooth=100").spectrum_smoothing, 100);
    assert_eq!(RuntimeSettings::parse(b"smooth=101").spectrum_smoothing, 90);
    assert_eq!(RuntimeSettings::parse(b"cal=-5").vu_calibration, -18);
    assert_eq!(RuntimeSettings::parse(b"cal=-6").vu_calibration, -6);
    assert_eq!(RuntimeSettings::parse(b"target=-15").target_lufs, -14);
    assert_eq!(RuntimeSettings::parse(b"trim=99999999999999").trim_db, 0);
    assert_eq!(RuntimeSettings::parse(b"trim=000012").trim_db, 12);
    assert_eq!(RuntimeSettings::parse(b"v=999;m=0000000000").module_enabled(8), true);
    assert_eq!(RuntimeSettings::parse(b"v=2;m=000000000").module_enabled(8), false);
    assert_eq!(Settings::parse("oy=-3600").object_yaw_tenths, -3600);
    assert_eq!(Settings::parse("oy=-3601").object_yaw_tenths, 0);
    assert_eq!(Settings::parse("op=851").object_pitch_tenths, 0);
    assert_eq!(Settings::parse("op=-850").object_pitch_tenths, -850);
}

#[test]
fn keys_of_the_page_may_have_white_space_around_them() {
    let settings = Settings::parse(" theme\u{2003}=coal;\n map =inferno; slot1=x;slot+2=y;slot3 =z;slot4=w");
    assert_eq!(settings.theme, Theme::Coal);
    assert_eq!(settings.color_map, ColorMap::Inferno);
    assert_eq!(settings.slots, ["", "", "y", ""]);
}

#[test]
fn long_or_broken_texts_are_refused() {
    let path = "p".repeat(4_096);
    assert_eq!(Settings::parse(&format!("model={path}")).model, path);
    assert_eq!(Settings::parse(&format!("model={path}p")).model, "");
    assert_eq!(Settings::parse("model=a\nb").model, "");
    assert_eq!(Settings::parse("model=a\rb;model=c").model, "c");
    let slot = "é".repeat(4_096);
    assert_eq!(Settings::parse(&format!("slot3={slot}")).slots[3], slot);
    assert_eq!(Settings::parse(&format!("slot3={slot}s")).slots[3], "");
}

#[test]
fn widths_keep_their_bounds() {
    assert_eq!(
        parse_widths("52,2000,100,100,100,100,100,100,+99"),
        Some([52, 2000, 100, 100, 100, 100, 100, 100, 99])
    );
    assert_eq!(parse_widths("51,100,100,100,100,100,100,100,100"), None);
    assert_eq!(parse_widths("2001,100,100,100,100,100,100,100,100"), None);
    assert_eq!(parse_widths("100,100,100,100,100,100,100,100,100,100"), None);
    assert_eq!(parse_widths(""), None);
    assert_eq!(parse_order("01234567a"), None);
    assert_eq!(parse_order("0123456789"), None);
}

#[test]
fn every_name_is_read_back_as_its_choice() {
    for choice in [
        AnalysisSource::Stereo,
        AnalysisSource::Left,
        AnalysisSource::Right,
        AnalysisSource::Mid,
        AnalysisSource::Side,
    ] {
        assert_eq!(AnalysisSource::parse(choice.name().as_bytes()), Some(choice));
    }
    for choice in [FpsLimit::Vsync, FpsLimit::Fps60, FpsLimit::Fps30, FpsLimit::Fps15] {
        assert_eq!(FpsLimit::parse(choice.name()), Some(choice));
    }
    for choice in [PointSize::Auto, PointSize::Small, PointSize::Medium, PointSize::Large] {
        assert_eq!(PointSize::parse(choice.name()), Some(choice));
    }
    for choice in [FftSize::Fft1024, FftSize::Fft2048, FftSize::Fft16384] {
        assert_eq!(FftSize::parse(choice.frames().to_string().as_bytes()), Some(choice));
    }
    assert_eq!(SpectrogramHistory::parse("off"), Some(SpectrogramHistory::Off));
    assert_eq!(StereoStyle::parse("vectorscope"), Some(StereoStyle::Vectorscope));
    assert_eq!(StereoColor::parse("multiband"), Some(StereoColor::Multiband));
    assert_eq!(WaveformStyle::parse("line"), Some(WaveformStyle::Line));
    assert_eq!(OscilloscopeStyle::parse("sum"), Some(OscilloscopeStyle::Sum));
    assert_eq!(BuiltinPreset::parse("scope"), Some(BuiltinPreset::Scope));
    assert_eq!(BuiltinPreset::parse("Scope"), None);
}

#[test]
fn the_page_is_told_the_settings_of_a_state_block() {
    let block = "v=3;target=-23;fft=8192";
    assert_eq!(
        editor_script(block.as_bytes()),
        Settings::parse(block).to_script()
    );
    assert_ne!(editor_script(block.as_bytes()), editor_script(b""));
    // Bytes that are no text count as an empty block.
    assert_eq!(editor_script(&[0xff, b'm']), Settings::parse("").to_script());
}

#[test]
fn a_malformed_module_flag_keeps_its_default() {
    assert_eq!(RuntimeSettings::parse(b"m=x"), RuntimeSettings::default());
    assert!(RuntimeSettings::parse(b"m=x").module_enabled(0));
    let runtime = RuntimeSettings::parse(b"v=2;m=0x1 2-0t");
    let flags: Vec<bool> = (0..9).map(|module| runtime.module_enabled(module)).collect();
    assert_eq!(
        flags,
        [false, true, true, true, true, true, false, true, true]
    );
    // A flag that was read stays where a later one is malformed.
    assert!(!RuntimeSettings::parse(b"m=0;m=x").module_enabled(0));
    assert!(!Settings::parse("m=0;m=x").runtime.module_enabled(0));
}

#[test]
fn a_switch_is_on_for_one_and_off_for_anything_else() {
    let settings = Settings::parse("loop=x;timecode=x;trace=x;hover=x;ospin=x");
    assert!(!settings.spectrogram_loop && !settings.spectrogram_timecode);
    assert!(!settings.spectrum_trace && !settings.hover_readout && !settings.object_spin);
    let settings = Settings::parse("loop=1;timecode=1;trace=1;hover=1;ospin=1");
    assert!(settings.spectrogram_loop && settings.spectrogram_timecode);
    assert!(settings.spectrum_trace && settings.hover_readout && settings.object_spin);
}

#[test]
fn the_cursor_stands_at_the_end_of_each_field() {
    let block = b" ;a=1;b= c=2;oops;d=4; \t";
    let mut cursor = 0;
    assert_eq!(next_field(block, &mut cursor), Some((&b"a"[..], &b"1"[..])));
    assert_eq!(cursor, 5);
    assert_eq!(
        next_field(block, &mut cursor),
        Some((&b"b"[..], &b" c=2"[..]))
    );
    assert_eq!(cursor, 12);
    // A field without a value ends the list, and is passed all the same.
    assert_eq!(next_field(block, &mut cursor), None);
    assert_eq!(cursor, 17);
    assert_eq!(next_field(block, &mut cursor), Some((&b"d"[..], &b"4"[..])));
    assert_eq!(cursor, 21);
    assert_eq!(next_field(block, &mut cursor), None);
    assert_eq!(cursor, block.len());
    assert_eq!(next_field(block, &mut cursor), None);
    assert_eq!(cursor, block.len());
}

#[test]
fn settings_can_be_cloned() {
    let settings = Settings::parse("v=2;theme=coal;model=/tmp/car.obj;slot1=abc");
    assert_eq!(settings.clone(), settings);
}
