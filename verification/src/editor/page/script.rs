//! The page's script: state, axes and the metering panels.
use vstd::prelude::*;

verus! {

/// Slots, state, colours and gradients.
pub const SCRIPT_STATE: &'static str = r##"<script>
(() => {
  "use strict";
  /* Native scope map — keep this verbatim with Neta::publish_picture:
     0..32 metrics; 32..224 three 64-point loudness timelines;
     224..288 histogram; 288..416 waveform min/max; 416..672 L/R scope
     pairs; 672..768 spectrum; 768..896 side/mid goniometer pairs. */
  const I={m:0,s:1,tp:2,corr:3,width:4,l:5,r:6,mid:7,side:8,psr:9,int:10,lra:11,plr:12,
           vuL:13,vuR:14,vuHoldL:15,vuHoldR:16,sampleL:17,sampleR:18,
           source:19,frames:20,fft:21,moduleMask:22,captureA:23,captureB:24,
           captureAShort:25,captureBShort:26,captureATp:27,captureBTp:28,target:29,
           vuRawL:30,vuRawR:31,timelineM:32,timelineS:96,timelineI:160,histogram:224,
           waveMin:288,waveMax:352,oscilloscope:416,spectrum:672,gonio:768};
  const SCOPE_SLOTS=896, SCOPE_BYTES=SCOPE_SLOTS*4;
  // The plugin sends this when a gated value has no programme behind it yet.
  const UNMEASURED=-150;
  const BANDS=96, WAVE_POINTS=64, OSCILLOSCOPE_POINTS=128, GONIO_POINTS=64;
  const TOP_DB=0, BOTTOM_DB=-60, TP_CEILING=-1;
  const TARGETS=[-24,-23,-16,-14,-9], DEFAULT_TARGET=-14;
  // Legacy indices 0..6 never move. VU and oscilloscope append at 7/8.
  const MODULES=["loudness","spectrum","spectrogram","waveform","stereo","object","visuals","vu","oscilloscope"];

  const $=id=>document.getElementById(id);
  const clamp=(x,a,b)=>Math.max(a,Math.min(b,x));
  const real=x=>Number.isFinite(x)&&x>UNMEASURED;
  const norm=db=>clamp((db-BOTTOM_DB)/(TOP_DB-BOTTOM_DB),0,1);
  const post=m=>{ try{ window.webkit.messageHandlers.seco.postMessage(m); }catch(_){} };

  const DEFAULT_ORDER=[0,7,1,2,3,8,4,5,6], DEFAULT_WIDTHS=[150,120,220,180,180,180,160,120,170];
  const MIN_WIDTH=52, MAX_WIDTH=2000;

  // Only these two typed buffers live for the page lifetime. `atob()` gives
  // a transient binary string, then its little-endian bytes land here.
  const v=new Float32Array(SCOPE_SLOTS);
  const base64Bytes=new Uint8Array(SCOPE_BYTES);
  const base64View=new DataView(base64Bytes.buffer);
  function decodeBase64Frame(encoded){
    let binary;
    try{ binary=atob(encoded); }catch(_){ return false; }
    if(binary.length!==SCOPE_BYTES) return false;
    for(let index=0;index<SCOPE_BYTES;index++) base64Bytes[index]=binary.charCodeAt(index);
    for(let index=0;index<SCOPE_SLOTS;index++) v[index]=base64View.getFloat32(index*4,true);
    return true;
  }
  // VISUALS is deliberately opt-in. It is a separate creative experiment,
  // not evidence a mix needs while making a loudness decision.
  let enabled=MODULES.map(name=>name!=="visuals");
  let order=DEFAULT_ORDER.slice(), widths=DEFAULT_WIDTHS.slice(), modelPath="", targetLufs=DEFAULT_TARGET;
  let theme="midnight", colorMap="neta", renderFps="vsync", route="stereo", trimDb=0,
      fftSize=2048, spectrumScale="log", spectrumStyle="both", smoothing=90, tiltDb=0,
      spectrumHold=false, vuMode="vu", vuCalibration=-18, oscMode="pitch", oscCycles="multi";
  let loudnessTimeline=true, loudnessHistogram=true, loudnessOvers=true,
      spectrogramHistoryMode="fast", spectrogramSpeed=4, spectrogramLoop=true,
      spectrogramTimecode=false, stereoStyle="linear", stereoColor="static",
      pointSize="auto", waveformColor="pink", preset="default", slots=["","","",""];
  let waveformStyle="band", waveformGain=1, oscStyle="overlay", oscGain=1,
      spectrumTrace=true, hoverReadout=true, objectSpin=true, chrome="bare";
  const GAINS=[1,2,4];
  // Object camera zoom, matching settings.rs's tenths bounds. Past the ceiling
  // a point cloud stops being a car and becomes its points.
  const OBJECT_ZOOM_MIN=0.5, OBJECT_ZOOM_MAX=4;
  let objectZoom=1;
  let clock=0;

  // Resolved once instead of per draw: seven canvases times a dozen colour
  // lookups a frame is a forced style recalculation for no benefit.
  let ink={}, rgb={};
  // Same colours as `ink`, as bare "r,g,b" triples. Every gradient and every
  // translucent stroke needs them, and parsing a hex string per stroke is the
  // kind of per-frame work this page exists to avoid.
  const hexToRgb=hex=>{
    const match=/^#?([0-9a-f]{3}|[0-9a-f]{6})$/i.exec(hex.trim());
    if(!match) return "255,255,255";
    let digits=match[1];
    if(digits.length===3){
      digits=digits[0]+digits[0]+digits[1]+digits[1]+digits[2]+digits[2];
    }
    return parseInt(digits.slice(0,2),16)+","+parseInt(digits.slice(2,4),16)
          +","+parseInt(digits.slice(4,6),16);
  };
  const readInk=()=>{
    const style=getComputedStyle(document.documentElement);
    for(const name of ["void","panel","well","line","edge","pink","pink-dim","pink-faint",
                       "cyan","cyan-dim","amber","red"]){
      ink[name]=style.getPropertyValue("--"+name).trim();
      rgb[name]=hexToRgb(ink[name]);
    }
    gradients=new WeakMap();
  };

  let layoutEpoch=0;
  const fitCache=new WeakMap();
  // Gradients are pinned to pixel geometry, so a resize retires them with the
  // fit cache rather than leaving a map that grows once per drag frame.
  const invalidateCanvases=()=>{ layoutEpoch++; gradients=new WeakMap(); };
  function fit(canvas){
    let cached=fitCache.get(canvas);
    if(!cached||cached.epoch!==layoutEpoch){
      const dpr=Math.min(devicePixelRatio||1,2), rect=canvas.getBoundingClientRect();
      const w=Math.max(1,Math.round(rect.width*dpr)), h=Math.max(1,Math.round(rect.height*dpr));
      if(canvas.width!==w||canvas.height!==h){ canvas.width=w; canvas.height=h; }
      cached={ctx:canvas.getContext("2d"),w,h,dpr,epoch:layoutEpoch};
      fitCache.set(canvas,cached);
    }
    const {ctx,w,h,dpr}=cached;
    // Opaque fill already clears every pixel. clearRect doubles Retina work.
    ctx.fillStyle=ink.well; ctx.fillRect(0,0,w,h);
    return [ctx,w,h,dpr];
  }
  const mono=(ctx,px)=>{ ctx.font=px+'px ui-monospace,Menlo,monospace'; ctx.textBaseline='middle'; };

  /* ==== shared plot furniture =============================================
     Nine panels sharing one dark well have to share one grammar too: the same
     grid weight, the same fade under a curve, the same way a line glows. Nine
     panels each inventing their own is how a window ends up looking like nine
     plugins that happen to be adjacent. */

  // Gradients belong to the context that made them, so they are cached per
  // context and thrown away whenever the palette or the layout changes.
  let gradients=new WeakMap();
  function verticalFade(ctx,triple,top,bottom,strong,weak){
    let perContext=gradients.get(ctx);
    if(!perContext){ perContext=new Map(); gradients.set(ctx,perContext); }
    const key=triple+"|"+Math.round(top)+"|"+Math.round(bottom)+"|"+strong+"|"+weak;
    let fade=perContext.get(key);
    if(!fade){
      fade=ctx.createLinearGradient(0,top,0,bottom);
      fade.addColorStop(0,"rgba("+triple+","+strong+")");
      fade.addColorStop(1,"rgba("+triple+","+weak+")");
      perContext.set(key,fade);
    }
    return fade;
  }

  // Brightest on the middle line, fading to both edges. A single two-stop
  // gradient cannot do this, and an envelope lit from one side reads as a
  // shape that is falling over.
  function centreFade(ctx,triple,top,bottom,strong,weak){
    let perContext=gradients.get(ctx);
    if(!perContext){ perContext=new Map(); gradients.set(ctx,perContext); }
    const key="c"+triple+"|"+Math.round(top)+"|"+Math.round(bottom)+"|"+strong+"|"+weak;
    let fade=perContext.get(key);
    if(!fade){
      fade=ctx.createLinearGradient(0,top,0,bottom);
      fade.addColorStop(0,"rgba("+triple+","+weak+")");
      fade.addColorStop(.5,"rgba("+triple+","+strong+")");
      fade.addColorStop(1,"rgba("+triple+","+weak+")");
      perContext.set(key,fade);
    }
    return fade;
  }

"##;

/// Curves, labels and the frequency axis.
pub const SCRIPT_AXES: &'static str = r##"  // Scratch for one curve. 256 covers the widest series the plugin publishes
  // (128 oscilloscope points); nothing here allocates per frame.
  const curveX=new Float32Array(256), curveY=new Float32Array(256);
  // Quadratic through the midpoints. Ninety-six bands across a 200 px panel
  // is a polyline with a visible corner at every band, and those corners are
  // most of what reads as crude — one extra number per point removes them.
  function curveThrough(ctx,count,continuing){
    if(count<=0) return;
    // A closed envelope is one path down its top edge and back along its
    // bottom. Opening the return leg with `moveTo` splits it into two
    // subpaths, and two subpaths fill as two separate shapes.
    if(continuing) ctx.lineTo(curveX[0],curveY[0]); else ctx.moveTo(curveX[0],curveY[0]);
    for(let index=1;index<count-1;index++){
      ctx.quadraticCurveTo(curveX[index],curveY[index],
        (curveX[index]+curveX[index+1])*.5,(curveY[index]+curveY[index+1])*.5);
    }
    if(count>1) ctx.lineTo(curveX[count-1],curveY[count-1]);
  }
  // A wide faint stroke under a thin bright one. `shadowBlur` reads the same
  // and costs an offscreen blur per stroke, every frame, on every panel.
  function glowStroke(ctx,triple,width){
    ctx.lineJoin="round"; ctx.lineCap="round";
    ctx.strokeStyle="rgba("+triple+",.16)"; ctx.lineWidth=width*3.2; ctx.stroke();
    ctx.strokeStyle="rgba("+triple+",.95)"; ctx.lineWidth=width;     ctx.stroke();
  }
  function gridLines(ctx,alpha){
    ctx.strokeStyle=ink.line; ctx.lineWidth=1; ctx.globalAlpha=alpha;
    ctx.stroke(); ctx.globalAlpha=1;
  }
  // Labels drop out rather than shrink or overlap: an unreadable label is
  // worse than a missing one, and the grid line stays either way.
  function labelRun(ctx){
    let lastRight=-1e9;
    return (text,centre,y)=>{
      const half=ctx.measureText(text).width*.5+3;
      if(centre-half<lastRight) return;
      ctx.fillText(text,centre,y);
      lastRight=centre+half;
    };
  }

  /* Geometry each panel already computed, kept for the pointer readout. Fields
     are written into preallocated objects rather than fresh ones: the readout
     must not turn nine panels into nine allocations a frame. */
  const PROBE={loudness:{},vu:{},spectrum:{},spectrogram:{},waveform:{},
               oscilloscope:{},stereo:{}};

  /* ==== spectrum data =====================================================
     The plugin publishes (dBFS + 120) / 120 per band. The page plots a 90 dB
     window out of that 120: nothing a mix decision depends on lives below
     -90 dBFS, and spending a quarter of the panel on it is why the curve read
     as a solid block with no floor under it. */
  const SLOT_FLOOR_DB=-120, SLOT_RANGE_DB=120;
  const SPECTRUM_TOP_DB=0, SPECTRUM_FLOOR_DB=-90;
  const slotDb=slot=>SLOT_FLOOR_DB+slot*SLOT_RANGE_DB;
  const spectrumFraction=db=>
    clamp((db-SPECTRUM_FLOOR_DB)/(SPECTRUM_TOP_DB-SPECTRUM_FLOOR_DB),0,1);

  // 20 Hz to 20 kHz, matching ScopeConfig's defaults. The analyzer narrows the
  // top to Nyquist below a 40 kHz session, which shifts the labels a little at
  // 32 kHz and not at all at anything a host runs by default.
  const SPECTRUM_MIN_HZ=20, SPECTRUM_MAX_HZ=20000;
  const melOf=hz=>2595*Math.log10(1+hz/700);
  // Where a frequency sits across the rail, in the same scale the analyzer
  // binned it with. Getting this wrong is not cosmetic: with the decade marks
  // hardcoded at 0.24 / 0.5 / 0.79 the 1 k label sat a sixth of the panel
  // away from 1 k, and 10 k was off by more than a tenth.
  function bandPosition(hz){
    if(spectrumScale==="linear"){
      return (hz-SPECTRUM_MIN_HZ)/(SPECTRUM_MAX_HZ-SPECTRUM_MIN_HZ);
    }
    if(spectrumScale==="mel"){
      const low=melOf(SPECTRUM_MIN_HZ), high=melOf(SPECTRUM_MAX_HZ);
      return (melOf(hz)-low)/(high-low);
    }
    return Math.log10(hz/SPECTRUM_MIN_HZ)/Math.log10(SPECTRUM_MAX_HZ/SPECTRUM_MIN_HZ);
  }

  // The inverse of `bandPosition`, for turning a pointer position back into a
  // frequency. Kept next to it so the pair cannot drift apart.
  function positionHz(position){
    const at=clamp(position,0,1);
    if(spectrumScale==="linear"){
      return SPECTRUM_MIN_HZ+(SPECTRUM_MAX_HZ-SPECTRUM_MIN_HZ)*at;
    }
    if(spectrumScale==="mel"){
      const low=melOf(SPECTRUM_MIN_HZ), high=melOf(SPECTRUM_MAX_HZ);
      return 700*(Math.pow(10,(low+(high-low)*at)/2595)-1);
    }
    return SPECTRUM_MIN_HZ*Math.pow(SPECTRUM_MAX_HZ/SPECTRUM_MIN_HZ,at);
  }
  const hzText=hz=>hz>=10000?(hz/1000).toFixed(1)+" kHz"
                  :hz>=1000?(hz/1000).toFixed(2)+" kHz"
                  :Math.round(hz)+" Hz";
  const dbText=(value,digits=1)=>real(value)?value.toFixed(digits)+" dB":"--";

  const smoothedSpectrum=new Float32Array(BANDS), spectrumPeak=new Float32Array(BANDS);
  function resetSpectrumView(){
    smoothedSpectrum.fill(0);
    spectrumPeak.fill(0);
    clearSpectrogram();
  }
  function updateSpectrum(){
    // 0% smoothing follows the analyzer; 100% still converges, never freezes.
    const follow=.08+(100-smoothing)/100*.92;
    for(let band=0;band<BANDS;band++){
      const raw=clamp(v[I.spectrum+band]||0,0,1);
      smoothedSpectrum[band]+= (raw-smoothedSpectrum[band])*follow;
      // Instant attack, slow release. This trace is what makes a spectrum
      // readable at a glance: the live curve says what is sounding now, the
      // trace says what the section has been reaching.
      const level=smoothedSpectrum[band];
      spectrumPeak[band]=level>spectrumPeak[band]
        ? level
        : Math.max(level,spectrumPeak[band]-(spectrumHold?0:0.0035));
    }
  }
  // Tilt is read as total dB across the visible span, so ±9 dB at the edges at
  // the control's limit. Applied in dB, before the window, because a tilt
  // applied to a normalised height is a tilt of the panel, not of the signal.
  const spectrumTilt=band=>(band/(BANDS-1)-.5)*tiltDb;
  function spectrumLevel(band){
    return spectrumFraction(slotDb(smoothedSpectrum[band])+spectrumTilt(band));
  }
  const spectrumPeakLevel=band=>
    spectrumFraction(slotDb(spectrumPeak[band])+spectrumTilt(band));

  /* ==== loudness =========================================================
     Four vertical strips share one dB axis. This keeps M/S/I/TP readable
     when Neta sits in a shallow MiniMeters-style rail. */
  const BARS=[
    {key:"m",  label:"M",  idx:I.m,  colour:()=>ink.pink, triple:()=>rgb.pink},
    {key:"s",  label:"S",  idx:I.s,  colour:()=>ink.pink, triple:()=>rgb.pink},
    {key:"i",  label:"I",  idx:I.int,colour:()=>ink.cyan, triple:()=>rgb.cyan},
    {key:"tp", label:"TP", idx:I.tp, colour:x=>x>TP_CEILING?ink.red:ink["cyan-dim"],
                                     triple:x=>x>TP_CEILING?rgb.red:rgb["cyan-dim"]},
  ];
  const TICKS=[-60,-48,-36,-24,-18,-12,-6,0];
  const holds={};

"##;

/// The loudness strips and the needle.
pub const SCRIPT_LEVELS: &'static str = r##"  function drawLoudness(){
    const [ctx,w,h,dpr]=fit($("loudness"));
    const left=21*dpr, right=4*dpr, top=12*dpr;
    const programmeH=(loudnessTimeline||loudnessHistogram)&&h>142*dpr?Math.min(38*dpr,h*.23):0;
    const floor=h-15*dpr-programmeH;
    const plotW=w-left-right;
    const plotH=floor-top;
    if(plotW<=0||plotH<=0) return;
    const y=db=>floor-norm(db)*plotH;

    mono(ctx,8*dpr); ctx.textAlign="right";
    for(const db of TICKS){
      const ty=y(db);
      ctx.strokeStyle=ink.line; ctx.lineWidth=1;
      ctx.beginPath(); ctx.moveTo(left,ty); ctx.lineTo(w-right,ty); ctx.stroke();
      ctx.fillStyle=ink["pink-faint"]; ctx.fillText(String(db),left-3*dpr,ty+3*dpr);
    }
    const targetY=y(targetLufs);
    ctx.setLineDash([3*dpr,3*dpr]); ctx.strokeStyle=ink.amber; ctx.lineWidth=1*dpr;
    ctx.beginPath(); ctx.moveTo(left,targetY); ctx.lineTo(w-right,targetY); ctx.stroke();
    ctx.setLineDash([]);

    const gap=Math.max(3*dpr,plotW*.035), stripW=(plotW-gap*(BARS.length-1))/BARS.length;
    if(stripW<2*dpr) return;
    Object.assign(PROBE.loudness,{left,top,floor,plotH,stripW,gap,dpr});
    BARS.forEach((bar,index)=>{
      const x=left+index*(stripW+gap), value=v[bar.idx], live=real(value);
      ctx.fillStyle="rgba(255,255,255,.035)";
      ctx.fillRect(x,top,stripW,plotH);
      if(live){
        const colour=bar.colour(value), peak=y(clamp(value,BOTTOM_DB,TOP_DB));
        // Bright at the top of the strip, dark at the floor. A flat rectangle
        // gives the eye nothing to read but its own edge; the fade puts the
        // weight of the bar where the number is.
        ctx.fillStyle=verticalFade(ctx,bar.triple(value),top,floor,.95,.30);
        ctx.fillRect(x,peak,stripW,floor-peak);
        const hold=holds[bar.key]||(holds[bar.key]={v:BOTTOM_DB,t:0}), now=performance.now();
        if(value>=hold.v||now-hold.t>1400){ hold.v=value; hold.t=now; }
        ctx.fillStyle=colour;
        ctx.fillRect(x,y(clamp(hold.v,BOTTOM_DB,TOP_DB))-dpr,stripW,2*dpr);
      }
      mono(ctx,8*dpr); ctx.textAlign="center";
      ctx.fillStyle=live?ink.pink:ink["pink-faint"];
      ctx.fillText(bar.label,x+stripW/2,floor+9*dpr);
      if(live&&stripW>=22*dpr){
        ctx.fillStyle=ink.cyan;
        ctx.fillText(value.toFixed(1),x+stripW/2,Math.max(top+7*dpr,y(value)-4*dpr));
      }
    });
    // A compact three-run history turns the headline into a programme view
    // without turning vertical meters back into horizontal runways.
    if(programmeH>0){
      const chartTop=floor+7*dpr, chartBottom=h-4*dpr;
      if(chartBottom-chartTop>10*dpr){
        const chartH=chartBottom-chartTop;
        if(loudnessHistogram){
          ctx.fillStyle=ink["pink-faint"]; ctx.globalAlpha=.35;
          for(let point=0;point<64;point++){
            const level=clamp(v[I.histogram+point]||0,0,1);
            const chartX=left+point*plotW/64;
            ctx.fillRect(chartX,chartBottom-level*chartH,Math.max(dpr,plotW/64-dpr*.5),level*chartH);
          }
        }
        if(loudnessTimeline) for(let series=0;series<3;series++){
          const start=series===0?I.timelineM:series===1?I.timelineS:I.timelineI;
          ctx.strokeStyle=series===0?ink.pink:series===1?ink.amber:ink.cyan;
          ctx.lineWidth=dpr; ctx.globalAlpha=.8; ctx.beginPath();
          for(let point=0;point<64;point++){
            const chartX=left+point*plotW/63;
            const chartY=chartBottom-norm(v[start+point])*chartH;
            point?ctx.lineTo(chartX,chartY):ctx.moveTo(chartX,chartY);
          }
          ctx.stroke();
        }
        ctx.globalAlpha=1;
      }
    }
  }

  /* ==== VU ===============================================================
     Calibrated L/R strips. Native peak holds stay visible as horizontal caps. */
  const VU_ROWS=[["L",I.vuL,I.vuHoldL],["R",I.vuR,I.vuHoldR]];
  function drawVu(){
    const [ctx,w,h,dpr]=fit($("vu"));
    const left=19*dpr, right=4*dpr, top=12*dpr, floor=h-15*dpr, span=floor-top;
    const plotW=w-left-right;
    if(span<=0||plotW<=0) return;
    const y=db=>floor-norm(db)*span;
    mono(ctx,7.5*dpr); ctx.textAlign="right";
    for(const db of [-60,-36,-18,0]){
      const at=y(db); ctx.strokeStyle=ink.line; ctx.lineWidth=1;
      ctx.beginPath(); ctx.moveTo(left,at); ctx.lineTo(w-right,at); ctx.stroke();
      ctx.fillStyle=ink["pink-faint"]; ctx.fillText(String(db),left-3*dpr,at+3*dpr);
    }
    const gap=Math.max(4*dpr,plotW*.12), stripW=(plotW-gap)/2;
    if(stripW<3*dpr) return;
    Object.assign(PROBE.vu,{left,top,floor,span,stripW,gap,dpr});
    for(let index=0;index<VU_ROWS.length;index++){
      const [label,valueIndex,holdIndex]=VU_ROWS[index], x=left+index*(stripW+gap);
      const value=v[valueIndex], hold=v[holdIndex], live=real(value);
      ctx.fillStyle="rgba(255,255,255,.035)"; ctx.fillRect(x,top,stripW,span);
      if(live){
        const peak=y(clamp(value,BOTTOM_DB,TOP_DB));
        ctx.fillStyle=verticalFade(ctx,index===0?rgb.cyan:rgb.pink,top,floor,.95,.30);
        ctx.fillRect(x,peak,stripW,floor-peak);
        if(real(hold)){
          ctx.fillStyle=hold>TP_CEILING?ink.red:ink.amber;
          ctx.fillRect(x,y(clamp(hold,BOTTOM_DB,TOP_DB))-dpr,stripW,2*dpr);
        }
      }
      mono(ctx,8*dpr); ctx.textAlign="center";
      ctx.fillStyle=live?(index===0?ink.cyan:ink.pink):ink["pink-faint"];
      ctx.fillText(label,x+stripW/2,floor+9*dpr);
      if(live&&stripW>=25*dpr){
        ctx.fillText(value.toFixed(1),x+stripW/2,Math.max(top+7*dpr,y(value)-4*dpr));
      }
    }
    $("vuMode").textContent=vuMode+" · "+vuCalibration+" dB";
  }

  /* ==== spectrum =========================================================
     A frequency plot with no axis on it is a texture. This one carries both
     axes, a filled curve for the live shape, and a peak trace for what the
     section keeps reaching — which is the reading an analyzer is actually for.
     Minor grid lines are unlabelled on purpose: they give the eye a decade
     rhythm without four numbers fighting for a 150 px rail. */
  const FREQ_MARKS=[[30,""],[50,""],[100,"100"],[200,""],[300,""],[500,"500"],
                    [1000,"1k"],[2000,""],[3000,"3k"],[5000,""],[10000,"10k"],[15000,""]];
  const SPECTRUM_DB_MARKS=[-12,-24,-36,-48,-60,-72];
"##;

/// The spectrum and its colours.
pub const SCRIPT_SPECTRUM: &'static str = r##"  function drawSpectrum(){
    const [ctx,w,h,dpr]=fit($("spectrum"));
    const axis=h-10*dpr, top=6*dpr, span=axis-top;
    if(span<=0||w<=0) return;
    const yOf=fraction=>axis-fraction*span;
    Object.assign(PROBE.spectrum,{top,axis,span,w});

    ctx.beginPath();
    for(const [hz] of FREQ_MARKS){
      const gx=Math.round(bandPosition(hz)*w)+.5;
      if(gx<0||gx>w) continue;
      ctx.moveTo(gx,top); ctx.lineTo(gx,axis);
    }
    for(const db of SPECTRUM_DB_MARKS){
      const gy=Math.round(yOf(spectrumFraction(db)))+.5;
      ctx.moveTo(0,gy); ctx.lineTo(w,gy);
    }
    gridLines(ctx,.5);
    if(w>110*dpr){
      mono(ctx,7.5*dpr); ctx.textAlign="right"; ctx.fillStyle=ink["pink-faint"];
      for(const db of [-24,-48,-72]) ctx.fillText(db,w-3*dpr,yOf(spectrumFraction(db)));
    }

    for(let band=0;band<BANDS;band++){
      curveX[band]=band*w/(BANDS-1);
      curveY[band]=yOf(spectrumLevel(band));
    }
    if(spectrumStyle!=="fft"){
      // One hue, brightness earned from level. Alternating cyan and pink by
      // band index was colour standing in for information it did not have.
      const gap=Math.max(1,dpr*.8), width=Math.max(1,w/BANDS-gap);
      ctx.fillStyle=verticalFade(ctx,rgb.cyan,top,axis,.95,.28);
      for(let band=0;band<BANDS;band++){
        const level=spectrumLevel(band), y=yOf(level);
        ctx.globalAlpha=.26+.74*level;
        ctx.fillRect(band*w/BANDS+gap*.5,y,width,axis-y);
      }
      ctx.globalAlpha=1;
    }
    if(spectrumStyle!=="bars"){
      ctx.beginPath(); curveThrough(ctx,BANDS);
      ctx.lineTo(w,axis); ctx.lineTo(0,axis); ctx.closePath();
      ctx.fillStyle=verticalFade(ctx,rgb.cyan,top,axis,.34,.02); ctx.fill();
      ctx.beginPath(); curveThrough(ctx,BANDS);
      glowStroke(ctx,rgb.cyan,1.1*dpr);
    }

    if(spectrumTrace){
      for(let band=0;band<BANDS;band++) curveY[band]=yOf(spectrumPeakLevel(band));
      ctx.beginPath(); curveThrough(ctx,BANDS);
      ctx.strokeStyle="rgba("+rgb.pink+",.8)"; ctx.lineWidth=1*dpr;
      ctx.lineJoin="round"; ctx.lineCap="round"; ctx.stroke();
    }

    mono(ctx,8*dpr); ctx.textAlign="center"; ctx.fillStyle=ink["pink-faint"];
    const place=labelRun(ctx);
    for(const [hz,label] of FREQ_MARKS){
      if(!label) continue;
      const lx=bandPosition(hz)*w;
      if(lx<0||lx>w) continue;
      place(label,lx,h-5*dpr);
    }
  }

  /* ==== spectrogram ======================================================
     Fixed ring + RGB lookup table. No RGB arrays per pixel, no history
     shift, no GC stutter while Reaper keeps feeding the editor. */
  // 200 columns rather than 64. Sixty-four columns stretched across a 250 px
  // panel is a 4x upscale, and a 4x upscale of a spectrogram is the blotchy
  // pink cloud this module used to draw instead of a time axis.
  const ROWS=200, spectrogramHistory=new Float32Array(ROWS*BANDS);
  let historyLength=0, historyCursor=0;
  const MAP_NETA=[[0,[14,10,22]],[.2,[54,28,84]],[.42,[168,42,120]],
                  [.62,[255,61,138]],[.82,[255,180,120]],[1,[224,250,255]]];
  const MAP_INFERNO=[[0,[0,0,4]],[.25,[64,9,102]],[.5,[187,55,84]],
                     [.75,[249,142,8]],[1,[252,255,164]]];
  const MAP_VIRIDIS=[[0,[68,1,84]],[.25,[59,82,139]],[.5,[33,145,140]],
                     [.75,[94,201,98]],[1,[253,231,37]]];
  const heatLut=new Uint8ClampedArray(256*3);
  // Declared before the first `buildHeatLut()` on purpose: the builder marks
  // the ring for repaint, and a `let` below the call would be a TDZ throw
  // during page setup.
  let spectrogramTick=0, spectrogramDirty=true;
  function buildHeatLut(){
    const ramp=colorMap==="inferno"?MAP_INFERNO:colorMap==="viridis"?MAP_VIRIDIS:MAP_NETA;
    for(let value=0;value<256;value++){
      const t=value/255;
      let low=ramp[0], high=ramp[ramp.length-1];
      for(let index=1;index<ramp.length;index++){
        if(t<=ramp[index][0]){ high=ramp[index]; low=ramp[index-1]; break; }
      }
      const k=(t-low[0])/((high[0]-low[0])||1), offset=value*3;
      heatLut[offset]=low[1][0]+(high[1][0]-low[1][0])*k;
      heatLut[offset+1]=low[1][1]+(high[1][1]-low[1][1])*k;
      heatLut[offset+2]=low[1][2]+(high[1][2]-low[1][2])*k;
    }
    spectrogramDirty=true;
  }
  buildHeatLut();
  function clearSpectrogram(){
    spectrogramHistory.fill(0);
    historyLength=0; historyCursor=0; spectrogramTick=0; spectrogramDirty=true;
  }
  function pushSpectrogram(){
    if(spectrogramHistoryMode==="off") return;
    const divider=Math.max(1,5-spectrogramSpeed);
    spectrogramTick=(spectrogramTick+1)%divider;
    if(spectrogramTick) return;
    if(historyLength===ROWS&&!spectrogramLoop) return;
    const offset=historyCursor*BANDS;
    for(let band=0;band<BANDS;band++){
      spectrogramHistory[offset+band]=spectrumLevel(band);
    }
    historyCursor=(historyCursor+1)%ROWS;
    historyLength=Math.min(ROWS,historyLength+1);
    spectrogramDirty=true;
  }
  const off=document.createElement("canvas");
  off.width=ROWS; off.height=BANDS;
  const offCtx=off.getContext("2d"), offImage=offCtx.createImageData(ROWS,BANDS);

"##;

/// The spectrogram and the waveform.
pub const SCRIPT_SPECTROGRAM: &'static str = r##"  function drawSpectrogram(){
    const [ctx,w,h,dpr]=fit($("spectrogram"));
    if(spectrogramHistoryMode==="off"){
      mono(ctx,9*dpr); ctx.textAlign="center"; ctx.fillStyle=ink["pink-faint"];
      ctx.fillText("history off",w/2,h/2);
      return;
    }
    // The ring only moves when a column was pushed, so the 19 200-pixel repaint
    // follows the data rather than the refresh rate. The upscale still runs
    // every frame, because `fit` clears the canvas.
    if(spectrogramDirty){
      const data=offImage.data;
      const first=(historyCursor-historyLength+ROWS)%ROWS;
      for(let band=0;band<BANDS;band++){
        for(let column=0;column<ROWS;column++){
          const o=((BANDS-1-band)*ROWS+column)*4;
          // One column of history is one column of image. Resampling the
          // history across the full width instead meant a warming spectrogram
          // stretched its first two columns over the whole panel, which is the
          // pink blob this module was accused of being.
          const level=column<historyLength
            ? spectrogramHistory[((first+column)%ROWS)*BANDS+band]
            : 0;
          // Smoothstep before the lookup. The map is a ramp, so a linear level
          // spends most of it on quiet bands and everything ends up mid-bright
          // pink; the S-curve gives the floor back to the floor and lets loud
          // bands reach the top of the ramp.
          const shaped=level*level*(3-2*level);
          const lutOffset=(shaped*255|0)*3;
          data[o]=heatLut[lutOffset]; data[o+1]=heatLut[lutOffset+1];
          data[o+2]=heatLut[lutOffset+2]; data[o+3]=255;
        }
      }
      offCtx.putImageData(offImage,0,0);
      spectrogramDirty=false;
    }
    // Smoothing on: a spectrogram is a continuous surface, and 200 columns is
    // now fine enough that interpolating reads as detail instead of blur.
    ctx.imageSmoothingEnabled=true;
    ctx.imageSmoothingQuality="high";
    const filled=Math.max(1,historyLength);
    ctx.drawImage(off,0,0,filled,BANDS,0,0,w*filled/ROWS,h);
    Object.assign(PROBE.spectrogram,{w,h,filled});
    // Frequency guides, so a bright band can be named rather than only seen.
    if(h>70*dpr){
      ctx.beginPath();
      for(const [hz] of FREQ_MARKS){
        if(hz!==100&&hz!==1000&&hz!==10000) continue;
        const gy=Math.round(h-bandPosition(hz)*h)+.5;
        ctx.moveTo(0,gy); ctx.lineTo(w,gy);
      }
      ctx.strokeStyle="rgba(255,255,255,.14)"; ctx.lineWidth=1; ctx.stroke();
      if(w>90*dpr){
        mono(ctx,7.5*dpr); ctx.textAlign="left"; ctx.fillStyle="rgba(255,255,255,.5)";
        for(const [hz,label] of [[100,"100"],[1000,"1k"],[10000,"10k"]]){
          ctx.fillText(label,3*dpr,h-bandPosition(hz)*h-5*dpr);
        }
      }
    }
    if(historyLength<ROWS){
      mono(ctx,8*dpr); ctx.textAlign="center"; ctx.fillStyle=ink["pink-faint"];
      ctx.fillText("warming history "+Math.round(historyLength/ROWS*100)+"%",w/2,h/2);
    }
    if(spectrogramTimecode){
      mono(ctx,8*dpr); ctx.textAlign="right"; ctx.fillStyle=ink["pink-faint"];
      ctx.fillText("live · "+(clock/60).toFixed(1)+" s",w-4*dpr,8*dpr);
    }
  }

  /* ==== waveform ========================================================= */
  function drawWaveform(){
    const [ctx,w,h,dpr]=fit($("waveform"));
    // Same reasoning as the loudness block: an envelope stretched over 600
    // pixels of column is a shape, not a reading.
    const band=Math.min(h*0.8,190*dpr), mid=h/2, scale=band*0.46*waveformGain;
    const triple=waveformColor==="cyan"?rgb.cyan:waveformColor==="amber"?rgb.amber:rgb.pink;
    Object.assign(PROBE.waveform,{mid,scale,w});

    // Half-scale guides before the envelope, so the band has something to be
    // loud against.
    ctx.beginPath();
    for(const at of [-1,-.5,.5,1]){
      const gy=Math.round(mid+at*scale)+.5;
      ctx.moveTo(0,gy); ctx.lineTo(w,gy);
    }
    gridLines(ctx,.45);

    // One closed path, curved on both edges. The fill is brightest at the
    // centre line and fades out to the peaks, which is what makes an envelope
    // read as a body of sound rather than a pair of scribbled outlines.
    // Bars are one column per published point - the shape a DAW draws, and the
    // one that reads transients rather than smoothing them into the body.
    if(waveformStyle==="bars"){
      const columnW=Math.max(1,w/WAVE_POINTS-Math.max(1,dpr*.6));
      ctx.fillStyle=centreFade(ctx,triple,mid-scale,mid+scale,.95,.35);
      for(let i=0;i<WAVE_POINTS;i++){
        const high=mid-clamp(v[I.waveMax+i]||0,-1,1)*scale;
        const low=mid-clamp(v[I.waveMin+i]||0,-1,1)*scale;
        ctx.fillRect(i*w/WAVE_POINTS,Math.min(high,low),columnW,Math.max(dpr,Math.abs(low-high)));
      }
    } else {
      ctx.beginPath();
      for(let i=0;i<WAVE_POINTS;i++){
        curveX[i]=i*w/(WAVE_POINTS-1);
        curveY[i]=mid-clamp(v[I.waveMax+i]||0,-1,1)*scale;
      }
      curveThrough(ctx,WAVE_POINTS);
      for(let i=0;i<WAVE_POINTS;i++){
        curveX[i]=(WAVE_POINTS-1-i)*w/(WAVE_POINTS-1);
        curveY[i]=mid-clamp(v[I.waveMin+WAVE_POINTS-1-i]||0,-1,1)*scale;
      }
      curveThrough(ctx,WAVE_POINTS,true);
      ctx.closePath();
      // `line` keeps the outline and drops the body, for reading peaks over a
      // spectrogram or a busy neighbour.
      if(waveformStyle!=="line"){
        ctx.fillStyle=centreFade(ctx,triple,mid-scale,mid+scale,.42,.05); ctx.fill();
      }
      glowStroke(ctx,triple,1*dpr);
    }

    ctx.strokeStyle="rgba("+triple+",.5)"; ctx.lineWidth=1;
    ctx.beginPath(); ctx.moveTo(0,Math.round(mid)+.5); ctx.lineTo(w,Math.round(mid)+.5); ctx.stroke();
    if(waveformGain>1){
      mono(ctx,7.5*dpr); ctx.textAlign="right"; ctx.fillStyle=ink["pink-faint"];
      ctx.fillText(waveformGain+"x",w-3*dpr,8*dpr);
    }
  }

  /* ==== oscilloscope ====================================================
     416..672 is exactly 128 interleaved L/R samples. Raw samples stay raw:
     envelope data belongs in the waveform module above, not here. */
"##;

/// The oscilloscope and the stereo history.
pub const SCRIPT_OSCILLOSCOPE: &'static str = r##"  function drawOscilloscope(){
    const [ctx,w,h,dpr]=fit($("oscilloscope"));
    const top=8*dpr, bottom=h-8*dpr;
    // `split` gives each channel its own axis in half the height, so detail
    // stops competing with the other trace for the same pixels.
    const lanes=oscStyle==="split"?2:1;
    const laneH=(bottom-top)/lanes;
    const scale=laneH*(lanes>1?0.40:0.42)*oscGain;
    const mid=top+laneH*.5;
    if(laneH<=0) return;
    Object.assign(PROBE.oscilloscope,{w,mid,scale,laneH,lanes});
    // Graticule, the shape a hardware scope has: quarter divisions across and
    // down, so a trace has a scale instead of only a middle.
    ctx.beginPath();
    for(let step=1;step<4;step++){
      const gx=Math.round(step*w/4)+.5;
      ctx.moveTo(gx,top); ctx.lineTo(gx,bottom);
    }
    for(let lane=0;lane<lanes;lane++){
      const centre=mid+lane*laneH;
      for(const at of [-1,-.5,.5,1]){
        const gy=Math.round(centre+at*laneH*.42)+.5;
        ctx.moveTo(0,gy); ctx.lineTo(w,gy);
      }
    }
    gridLines(ctx,.45);
    ctx.strokeStyle=ink.edge; ctx.lineWidth=1; ctx.beginPath();
    for(let lane=0;lane<lanes;lane++){
      const gy=Math.round(mid+lane*laneH)+.5;
      ctx.moveTo(0,gy); ctx.lineTo(w,gy);
    }
    ctx.stroke();

    // `sum` reads the mid signal, which is the channel a mono fold-down would
    // produce - the trace that answers "does this survive one speaker".
    const sample=(point,channel)=>oscStyle==="sum"
      ? (clamp(v[I.oscilloscope+point*2],-1,1)+clamp(v[I.oscilloscope+point*2+1],-1,1))*.5
      : clamp(v[I.oscilloscope+point*2+channel],-1,1);
    const drawChannel=(channel,triple,centre,offset)=>{
      ctx.beginPath();
      for(let point=0;point<OSCILLOSCOPE_POINTS;point++){
        curveX[point]=point*w/(OSCILLOSCOPE_POINTS-1);
        curveY[point]=centre-sample(point,channel)*scale+offset;
      }
      curveThrough(ctx,OSCILLOSCOPE_POINTS);
      glowStroke(ctx,triple,1*dpr);
    };
    if(oscStyle==="sum"){
      drawChannel(0,rgb.cyan,mid,0);
    } else if(oscStyle==="split"){
      drawChannel(0,rgb.cyan,mid,0);
      drawChannel(1,rgb.pink,mid+laneH,0);
      if(w>70*dpr){
        mono(ctx,7.5*dpr); ctx.textAlign="left";
        ctx.fillStyle=ink["cyan-dim"]; ctx.fillText("L",3*dpr,top+7*dpr);
        ctx.fillStyle=ink["pink-dim"]; ctx.fillText("R",3*dpr,top+laneH+7*dpr);
      }
    } else {
      drawChannel(0,rgb.cyan,mid,-dpr*.5);
      drawChannel(1,rgb.pink,mid,dpr*.5);
    }
    if(oscGain>1){
      mono(ctx,7.5*dpr); ctx.textAlign="right"; ctx.fillStyle=ink["pink-faint"];
      ctx.fillText(oscGain+"x",w-3*dpr,8*dpr);
    }
    $("oscMode").textContent=oscStyle==="sum"?oscMode+" · sum":oscMode+" · "+oscCycles;
  }

  /* ==== stereo ===========================================================
     A horizontal unipolar stereometer, the shape MiniMeters uses: position
     across the lane is where the energy sits between the channels, height is
     how much of it there is. Sixteen points a frame is a scatter, so they
     accumulate into a decaying histogram instead. */
  const PAN_BINS=64, pan=new Float32Array(PAN_BINS), panScratch=new Float32Array(PAN_BINS);
  // The scale the distribution is drawn against. Floored at 1 so anything
  // below the old saturation point still reads absolutely; above it the shape
  // is normalised, because `Math.min(1, ...)` per bin meant a mix at any real
  // level pinned every bin to the ceiling and the panel drew a filled block.
  let panScale=1;
  function pushStereo(){
    for(let i=0;i<PAN_BINS;i++) pan[i]*=0.88;
    for(let i=0;i<GONIO_POINTS;i++){
      const side=v[I.gonio+i*2]||0, m=v[I.gonio+i*2+1]||0;
      const energy=Math.hypot(m,side);
      if(energy<1e-4) continue;
      // -1 is all in one channel, +1 all in the other, 0 is centred.
      const position=clamp(side/(Math.abs(m)+Math.abs(side)),-1,1);
      const bin=clamp(Math.round((position+1)*0.5*(PAN_BINS-1)),0,PAN_BINS-1);
      pan[bin]+=energy;
    }
    // Sixteen points landing in ninety-six bins is a picket fence, and a
    // picket fence is not a stereo image. One blur pass a frame turns the
    // same samples into the distribution they are drawn from.
    for(let i=0;i<PAN_BINS;i++){
      const before=pan[i-1]??pan[i], after=pan[i+1]??pan[i];
      panScratch[i]=before*0.25+pan[i]*0.5+after*0.25;
    }
    pan.set(panScratch);
    // Peak follows instantly up and crawls down, so the shape keeps its
    // proportions between frames instead of rescaling on every one.
    let peak=0;
    for(let i=0;i<PAN_BINS;i++) if(pan[i]>peak) peak=pan[i];
    panScale=Math.max(1,peak>panScale?peak:panScale*0.985+peak*0.015);
  }
  function stereoInk(index){
    if(stereoColor==="static") return ink.cyan;
    if(stereoColor==="rgb") return "hsl("+(190+index/GONIO_POINTS*145)+" 74% 62%)";
    return index/GONIO_POINTS>.6?ink.pink:ink.cyan;
  }
"##;

/// The stereo panel and the visuals.
pub const SCRIPT_STEREO: &'static str = r##"  function drawStereo(){
    const [ctx,w,h,dpr]=fit($("stereo"));
    if(stereoStyle==="vectorscope"){
      const cx=w/2, cy=h/2, span=Math.min(w,h)*.42;
      // The graticule a hardware vectorscope has: two rings, the M/S cross,
      // and the L/R diagonals a phase reading is actually taken against.
      ctx.beginPath();
      for(const ring of [.5,1]){ ctx.moveTo(cx+span*ring,cy); ctx.arc(cx,cy,span*ring,0,Math.PI*2); }
      ctx.moveTo(cx-span,cy); ctx.lineTo(cx+span,cy);
      ctx.moveTo(cx,cy-span); ctx.lineTo(cx,cy+span);
      gridLines(ctx,.5);
      ctx.beginPath();
      const diagonal=span*Math.SQRT1_2;
      ctx.moveTo(cx-diagonal,cy+diagonal); ctx.lineTo(cx+diagonal,cy-diagonal);
      ctx.moveTo(cx-diagonal,cy-diagonal); ctx.lineTo(cx+diagonal,cy+diagonal);
      ctx.strokeStyle=ink.edge; ctx.lineWidth=1; ctx.globalAlpha=.5; ctx.stroke(); ctx.globalAlpha=1;
      if(w>90*dpr&&h>90*dpr){
        mono(ctx,7.5*dpr); ctx.fillStyle=ink["pink-faint"];
        ctx.textAlign="left";  ctx.fillText("L",cx-diagonal-9*dpr,cy-diagonal-2*dpr);
        ctx.textAlign="right"; ctx.fillText("R",cx+diagonal+9*dpr,cy-diagonal-2*dpr);
      }
      const radius=pointSize==="small"?1*dpr:pointSize==="large"?3*dpr:pointSize==="medium"?2*dpr:1.5*dpr;
      for(let i=0;i<GONIO_POINTS;i++){
        const side=clamp(v[I.gonio+i*2]||0,-1,1), mid=clamp(v[I.gonio+i*2+1]||0,-1,1);
        // Round dots, and the trail fades into the past rather than sitting at
        // a flat alpha. Square pixels at 64 points is how a scope reads cheap.
        ctx.fillStyle=stereoInk(i); ctx.globalAlpha=.22+.6*i/GONIO_POINTS;
        ctx.beginPath(); ctx.arc(cx+side*span,cy-mid*span,radius,0,Math.PI*2); ctx.fill();
      }
      ctx.globalAlpha=1;
      return;
    }
    const top=15*dpr, floor=h-17*dpr, span=floor-top;
    if(span<=0) return;
    Object.assign(PROBE.stereo,{w,top,floor,span});
    ctx.beginPath();
    for(const at of [0,0.25,0.5,0.75,1]){
      const gx=Math.round(at*w)+.5;
      ctx.moveTo(gx,top); ctx.lineTo(gx,floor);
    }
    for(const at of [0.33,0.66]){
      const gy=Math.round(floor-at*span)+.5;
      ctx.moveTo(0,gy); ctx.lineTo(w,gy);
    }
    gridLines(ctx,.45);

    // Sixty-four bars a distribution wide was a picket fence with a fill; the
    // same numbers as one curve are the distribution they came from. Colour by
    // position stays: centre energy is mono, edge energy is wide, and that is
    // visible here without reading the correlation number.
    for(let i=0;i<PAN_BINS;i++){
      curveX[i]=i*w/(PAN_BINS-1);
      curveY[i]=floor-clamp(pan[i]/panScale,0,1)*span*.92;
    }
    ctx.beginPath(); curveThrough(ctx,PAN_BINS);
    ctx.lineTo(w,floor); ctx.lineTo(0,floor); ctx.closePath();
    if(stereoColor==="static"){
      // One horizontal gradient rather than a per-bin colour test, so the
      // wide edges shade into the mono centre instead of switching at a bin.
      let perContext=gradients.get(ctx);
      if(!perContext){ perContext=new Map(); gradients.set(ctx,perContext); }
      const key="pan|"+Math.round(w);
      let across=perContext.get(key);
      if(!across){
        across=ctx.createLinearGradient(0,0,w,0);
        across.addColorStop(0,"rgba("+rgb.pink+",.55)");
        across.addColorStop(.28,"rgba("+rgb.cyan+",.5)");
        across.addColorStop(.72,"rgba("+rgb.cyan+",.5)");
        across.addColorStop(1,"rgba("+rgb.pink+",.55)");
        perContext.set(key,across);
      }
      ctx.fillStyle=across;
    } else {
      ctx.fillStyle=verticalFade(ctx,rgb.cyan,top,floor,.5,.1);
    }
    ctx.fill();
    ctx.beginPath(); curveThrough(ctx,PAN_BINS);
    glowStroke(ctx,rgb.cyan,1*dpr);
    mono(ctx,8.5*dpr); ctx.fillStyle=ink["pink-faint"];
    ctx.textAlign="left";   ctx.fillText("L",3*dpr,floor+9*dpr);
    ctx.textAlign="center"; ctx.fillText("MONO",w/2,floor+9*dpr);
    ctx.textAlign="right";  ctx.fillText("R",w-3*dpr,floor+9*dpr);

    // Correlation as a needle on the same axis, since it answers the same
    // question this lane is already asking.
    const corr=Number.isFinite(v[I.corr])?clamp(v[I.corr],-1,1):0;
    const nx=(corr*0.5+0.5)*w;
    ctx.fillStyle=corr<0?ink.red:ink.amber;
    ctx.fillRect(nx-1.5*dpr,top-6*dpr,3*dpr,7*dpr);
  }

  /* ==== visuals rail =====================================================
     Rays from a core: length is a band, the core is momentary loudness. The
     rail is the one place in the window that is allowed to be decorative,
     so the decoration is still made of the audio. */
  function drawVisuals(){
    const [ctx,w,h,dpr]=fit($("visuals"));
    const cx=w/2, cy=h/2, radius=Math.min(w,h)*0.42;
    const loud=real(v[I.m])?norm(v[I.m]):0;
    const turn=clock*0.004;

    const core=radius*(0.12+loud*0.3);
    // Flat chrome; colour appears only where data makes it appear.
    ctx.fillStyle=ink.pink; ctx.globalAlpha=.25+loud*.55;
    ctx.beginPath(); ctx.arc(cx,cy,Math.max(core,1),0,Math.PI*2); ctx.fill();
    ctx.globalAlpha=1;

    ctx.lineWidth=Math.max(1,1.4*dpr); ctx.lineCap="round";
    for(let i=0;i<BANDS;i++){
      const level=spectrumLevel(i);
      if(level<0.02) continue;
      const angle=turn+i/BANDS*Math.PI*2;
      const inner=radius*0.22, outer=inner+level*radius*0.78;
      ctx.strokeStyle=i<BANDS*0.4?ink.cyan:ink.pink;
      ctx.globalAlpha=0.25+level*0.75;
      ctx.beginPath();
      ctx.moveTo(cx+Math.cos(angle)*inner,cy+Math.sin(angle)*inner);
      ctx.lineTo(cx+Math.cos(angle)*outer,cy+Math.sin(angle)*outer);
      ctx.stroke();
    }
    ctx.globalAlpha=1;
  }

  /* ==== object rail ======================================================
     A WebGL point cloud. Points rather than a surface for two reasons: the
     files people actually have are hundreds of thousands of triangles, and
     a cloud is something the audio can push around — a surface could only
     spin. */
  const objectCanvas=$("object");
  let gl=null, program=null, buffer=null, pointCount=0, glDead=false;
  let objectLayoutEpoch=-1, objectW=0, objectH=0, objectDpr=1;
  let objectLastDraw=0, objectSpinTimer=0;
"##;

} // verus!
