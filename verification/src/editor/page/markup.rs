//! The page's markup.
use vstd::prelude::*;

verus! {

/// The rail and the head of the drawer.
pub const MARKUP_RAIL: &'static str = r##"</style>
</head>
<body>
<main class="shell">
  <header class="top">
    <div class="brand">NE<i>TA</i></div>
    <div class="rule"></div>
    <div class="headline">integrated <b id="hint">listening</b></div>
    <div class="actions" aria-label="Loudness actions">
      <button class="action" id="actionReset">reset</button>
      <button class="action" id="actionCaptureA">A</button>
      <button class="action" id="actionCaptureB">B</button>
    </div>
    <button class="gear" id="gear" aria-expanded="false" aria-controls="sheet">settings</button>
  </header>

  <div class="row" id="row">
    <section class="box" data-module="loudness"><div class="cap"><b>loudness</b><span>LUFS</span></div><canvas id="loudness"></canvas></section>
    <section class="box" data-module="vu"><div class="cap"><b>VU</b><span id="vuMode">calibrated</span></div><canvas id="vu"></canvas></section>
    <section class="box" data-module="spectrum"><div class="cap"><b>spectrum</b><span>20&#8202;Hz&#8202;–&#8202;20&#8202;k</span></div><canvas id="spectrum"></canvas></section>
    <section class="box" data-module="spectrogram"><div class="cap"><b>spectrogram</b><span>history</span></div><canvas id="spectrogram"></canvas></section>
    <section class="box" data-module="waveform"><div class="cap"><b>waveform</b><span>envelope</span></div><canvas id="waveform"></canvas></section>
    <section class="box" data-module="oscilloscope"><div class="cap"><b>oscilloscope</b><span id="oscMode">pitch · multi</span></div><canvas id="oscilloscope"></canvas></section>
    <section class="box" data-module="stereo"><div class="cap"><b>stereo</b><span>L / R</span></div><canvas id="stereo"></canvas></section>
    <section class="box" data-module="object">
      <div class="cap"><b>object</b><span id="objectPoints">drag to orbit</span></div>
      <canvas id="object"></canvas>
      <div class="note" id="objectNote">drag to orbit · scroll to zoom</div>
    </section>
    <section class="box" data-module="visuals">
      <div class="cap"><b>visuals</b><span>experimental</span></div>
      <canvas id="visuals"></canvas>
      <div class="note">isolated from metering · opt in from settings</div>
    </section>
  </div>

  <section class="sheet" id="sheet" hidden role="group" aria-label="Settings">
    <div class="tabs" id="tabs" role="tablist" aria-label="Settings sections">
      <span class="tabSpace"></span>
      <button class="reset" id="sheetReset">reset layout</button>
      <button class="close" id="sheetClose">close</button>
    </div>
    <div class="pages" id="pages">

      <div class="page" data-tab="layout">
        <section class="group">
          <h2>Modules</h2>
          <div class="chips" id="moduleChips"></div>
          <p class="hint">Drag a panel's header to move it, its divider to
            resize it, or hit its <b>&#215;</b> to hide it. A hidden module stops
            drawing; measurement carries on either way.</p>
        </section>
        <section class="group">
          <h2>Chrome</h2>
          <div class="chips" id="chromeChips"></div>
          <p class="hint"><b>bare</b> drops the panel borders and shows a header
            only under the pointer, so the rail reads as one instrument.</p>
        </section>
      </div>

      <div class="page" data-tab="view">
        <section class="group">
          <h2>Palette</h2>
          <p class="controlLabel">theme</p><div class="chips" id="themeChips"></div>
          <p class="controlLabel">colour map</p><div class="chips" id="mapChips"></div>
        </section>
        <section class="group">
          <h2>Rendering</h2>
          <p class="controlLabel">refresh</p><div class="chips" id="fpsChips"></div>
          <p class="hint">Below your monitor's refresh rate costs less CPU and
            makes fast transients harder to see.</p>
        </section>
        <section class="group">
          <h2>Pointer</h2>
          <div class="chips" id="hoverChips"></div>
          <p class="hint">Hover any panel for the value under the cursor.</p>
        </section>
      </div>

      <div class="page" data-tab="analysis">
        <section class="group">
          <h2>Input</h2>
          <p class="controlLabel">source</p><div class="chips" id="routeChips"></div>
          <div class="tune">
            <label for="trimInput">trim dB</label><input id="trimInput" type="number" min="-24" max="24" step="1">
          </div>
          <p class="hint"><b>Input bus:</b> stereo insert. Source and trim affect analysis only; Neta never changes output audio.</p>
        </section>
        <section class="group">
          <h2>FFT</h2>
          <p class="controlLabel">size</p><div class="chips" id="fftChips"></div>
          <p class="controlLabel">scale</p><div class="chips" id="scaleChips"></div>
          <div class="tune">
            <label for="smoothingInput">smoothing</label><input id="smoothingInput" type="range" min="0" max="100" step="1">
            <label for="tiltInput">tilt dB</label><input id="tiltInput" type="number" min="-18" max="18" step="1">
          </div>
        </section>
"##;

/// The rest of the drawer.
pub const MARKUP_SETTINGS: &'static str = r##"        <section class="group">
          <h2>Spectrum</h2>
          <p class="controlLabel">style</p><div class="chips" id="styleChips"></div>
          <p class="controlLabel">peak trace</p><div class="chips" id="traceChips"></div>
          <p class="hint">Plotted over a 90&#8239;dB window. The trace holds what the section reaches.</p>
        </section>
      </div>

      <div class="page" data-tab="loudness">
        <section class="group">
          <h2>Delivery target</h2>
          <div class="chips" id="targetChips"></div>
          <p class="hint">Reference only. It moves the guide line; Neta never changes audio.</p>
        </section>
        <section class="group">
          <h2>Programme</h2>
          <p class="controlLabel">timeline, histogram, overs</p><div class="chips" id="loudnessChips"></div>
          <p class="controlLabel">actions</p><div class="chips" id="actionChips"></div>
          <p class="hint">Reset and A/B use automatable counter parameters. They survive host undo correctly.</p>
        </section>
        <section class="group">
          <h2>VU</h2>
          <p class="controlLabel">mode</p><div class="chips" id="vuChips"></div>
          <div class="tune">
            <label for="calibrationInput">calibration</label><input id="calibrationInput" type="number" min="-36" max="-6" step="1">
          </div>
        </section>
      </div>

      <div class="page" data-tab="scopes">
        <section class="group">
          <h2>Spectrogram</h2>
          <p class="controlLabel">history</p><div class="chips" id="spectrogramChips"></div>
          <div class="tune">
            <label for="speedInput">speed</label><input id="speedInput" type="number" min="1" max="4" step="1">
          </div>
          <p class="controlLabel">extras</p><div class="chips" id="historyChips"></div>
        </section>
        <section class="group">
          <h2>Waveform</h2>
          <p class="controlLabel">colour</p><div class="chips" id="waveformChips"></div>
          <p class="controlLabel">style</p><div class="chips" id="waveStyleChips"></div>
          <p class="controlLabel">gain</p><div class="chips" id="waveGainChips"></div>
        </section>
        <section class="group">
          <h2>Oscilloscope</h2>
          <p class="controlLabel">trigger</p><div class="chips" id="oscChips"></div>
          <p class="controlLabel">view</p><div class="chips" id="oscViewChips"></div>
          <p class="controlLabel">gain</p><div class="chips" id="oscGainChips"></div>
        </section>
      </div>

      <div class="page" data-tab="stereo">
        <section class="group">
          <h2>Stereometer</h2>
          <p class="controlLabel">style</p><div class="chips" id="stereoStyleChips"></div>
          <p class="controlLabel">colour</p><div class="chips" id="stereoColorChips"></div>
          <p class="controlLabel">point size</p><div class="chips" id="pointSizeChips"></div>
        </section>
        <section class="group wide">
          <h2>3D model</h2>
          <div class="field">
            <input id="modelPath" type="text" spellcheck="false" placeholder="/path/to/model.obj" aria-label="Path to an OBJ file">
            <button class="go" id="modelLoad">Load</button>
          </div>
          <p class="controlLabel">view</p><div class="chips" id="objectChips"></div>
          <p class="hint" id="modelStatus">Wavefront <b>.obj</b> up to 96&#8239;MB. Neta samples it down to a
            point cloud. Drag to orbit, <b>scroll or pinch to zoom</b>; automatic spin keeps running.</p>
        </section>
      </div>

      <div class="page" data-tab="presets">
        <section class="group">
          <h2>Built-ins</h2>
          <div class="chips" id="presetChips"></div>
          <p class="hint">A preset sets the whole view, including choices it does not name.</p>
        </section>
        <section class="group wide">
          <h2>Four user slots</h2>
          <div class="chips" id="slotChips"></div>
          <p class="hint">Tap Save N to store current view. Tap Load N to restore it.</p>
        </section>
      </div>

    </div>
  </section>

  <footer class="foot">
    <div class="cell"><label>integrated</label><output id="int">&#8212;</output></div>
    <div class="cell"><label>range</label><output id="lra">&#8212;</output></div>
    <div class="cell"><label>psr</label><output id="psr">&#8212;</output></div>
    <div class="cell"><label>plr</label><output id="plr">&#8212;</output></div>
    <div class="cell"><label>true peak</label><output id="tp">&#8212;</output></div>
    <div class="cell"><label>correlation</label><output id="corr">+0.00</output></div>
    <div class="cell"><label>width</label><output id="width">0.00</output></div>
  </footer>
</main>

<div class="tip" id="tip" hidden aria-hidden="true"></div>

"##;

} // verus!
