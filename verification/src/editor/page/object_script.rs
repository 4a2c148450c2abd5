//! The page's script: the object, the readouts and the frames.
use vstd::prelude::*;

verus! {

/// The object: its shaders and its cloud.
pub const SCRIPT_OBJECT: &'static str = r##"  // User orbit is an offset, never a replacement for programme motion.
  // Releasing the mouse leaves automatic rotation alive.
  let objectYaw=0, objectPitch=.42, objectPointer=null, objectX=0, objectY=0;
  const attributes={};

  // `mediump` is declared in both stages on purpose: a uniform shared
  // between them must agree, and a vertex shader defaults to `highp`, so
  // omitting this here links fine on some drivers and fails on others with
  // "Precisions of uniform 'scatter' differ between VERTEX and FRAGMENT".
  const VERTEX=`
    precision mediump float;
    attribute vec3 position;
    uniform float turn, pitch, scatter, size, aspect, zoom;
    varying float depth;
    void main(){
      float c=cos(turn), s=sin(turn);
      vec3 p=vec3(position.x*c+position.z*s, position.y, -position.x*s+position.z*c);
      p=vec3(p.x, p.y*cos(pitch)-p.z*sin(pitch), p.y*sin(pitch)+p.z*cos(pitch));
      // Loudness pushes every point out along its own radius, so the object
      // breathes instead of merely rotating.
      p*=1.0+scatter*0.22;
      // A fixed camera down -Z with a gentle perspective divide. The zoom
      // is passed in rather than fixed because this panel is a tall narrow
      // rail: dividing x by the aspect is the correct projection, and on a
      // portrait viewport that correct projection is exactly what pushes a
      // wide model off both edges.
      // (No backticks in here - this shader lives in a template literal.)
      float z=p.z+3.4;
      gl_Position=vec4(p.x*zoom/(aspect*z), p.y*zoom/z, 0.0, 1.0);
      gl_PointSize=size*(1.6/z);
      depth=clamp((3.4-p.z)/2.6,0.0,1.0);
    }`;
  const FRAGMENT=`
    precision mediump float;
    uniform float scatter;
    varying float depth;
    void main(){
      vec2 d=gl_PointCoord-vec2(0.5);
      if(dot(d,d)>0.25) discard;
      vec3 near=vec3(1.0,0.24,0.54), far=vec3(0.36,0.86,0.91);
      vec3 tint=mix(far,near,depth);
      gl_FragColor=vec4(tint,(0.30+depth*0.62)*(0.75+scatter*0.25));
    }`;

  function compile(context,kind,source){
    const shader=context.createShader(kind);
    context.shaderSource(shader,source); context.compileShader(shader);
    if(!context.getShaderParameter(shader,context.COMPILE_STATUS)) return null;
    return shader;
  }
  // Once a canvas has a WebGL context it can never hand out a 2D one, so a
  // failure here has to report itself in the panel's note rather than by
  // drawing an apology on the canvas.
  const giveUp=reason=>{ glDead=true; gl=null; $("objectNote").textContent=reason; return null; };

  function initGl(){
    if(gl||glDead) return gl;
    gl=objectCanvas.getContext("webgl",{alpha:true,antialias:true,premultipliedAlpha:false});
    if(!gl) return giveUp("no 3D on this system");
    const vertex=compile(gl,gl.VERTEX_SHADER,VERTEX);
    const fragment=compile(gl,gl.FRAGMENT_SHADER,FRAGMENT);
    if(!vertex||!fragment) return giveUp("3D shaders would not compile");
    program=gl.createProgram();
    gl.attachShader(program,vertex); gl.attachShader(program,fragment); gl.linkProgram(program);
    if(!gl.getProgramParameter(program,gl.LINK_STATUS)){
      return giveUp("3D program would not link");
    }
    gl.useProgram(program);
    attributes.position=gl.getAttribLocation(program,"position");
    for(const name of ["turn","pitch","scatter","size","aspect","zoom"]){
      attributes[name]=gl.getUniformLocation(program,name);
    }
    buffer=gl.createBuffer();
    gl.enable(gl.BLEND); gl.blendFunc(gl.SRC_ALPHA,gl.ONE_MINUS_SRC_ALPHA);
    setCloud(defaultCloud());
    return gl;
  }
  /// A Fibonacci sphere, so the panel shows what it is for before a model
  /// is chosen rather than sitting empty.
  function defaultCloud(){
    const total=768, points=new Float32Array(total*3), golden=Math.PI*(3-Math.sqrt(5));
    for(let i=0;i<total;i++){
      const y=1-(i/(total-1))*2, r=Math.sqrt(Math.max(0,1-y*y)), a=golden*i;
      points[i*3]=Math.cos(a)*r; points[i*3+1]=y; points[i*3+2]=Math.sin(a)*r;
    }
    return points;
  }
  function setCloud(points){
    if(!initGl()) return;
    gl.bindBuffer(gl.ARRAY_BUFFER,buffer);
    gl.bufferData(gl.ARRAY_BUFFER,points,gl.STATIC_DRAW);
    gl.enableVertexAttribArray(attributes.position);
    gl.vertexAttribPointer(attributes.position,3,gl.FLOAT,false,0,0);
    pointCount=points.length/3;
    $("objectPoints").textContent=pointCount?pointCount.toLocaleString()+" pts":"";
  }
"##;

/// The object: drawing, orbit and zoom.
pub const SCRIPT_ORBIT: &'static str = r##"  function drawObject(force=false){
    if(!initGl()) return;
    const now=performance.now();
    if(!force&&now-objectLastDraw<30) return;
    objectLastDraw=now;
    if(objectLayoutEpoch!==layoutEpoch){
      objectDpr=Math.min(devicePixelRatio||1,2);
      const rect=objectCanvas.getBoundingClientRect();
      objectW=Math.max(1,Math.round(rect.width*objectDpr));
      objectH=Math.max(1,Math.round(rect.height*objectDpr));
      if(objectCanvas.width!==objectW||objectCanvas.height!==objectH){
        objectCanvas.width=objectW; objectCanvas.height=objectH;
      }
      objectLayoutEpoch=layoutEpoch;
    }
    gl.viewport(0,0,objectW,objectH);
    gl.clearColor(0.059,0.047,0.086,1); gl.clear(gl.COLOR_BUFFER_BIT);
    if(!pointCount) return;
    const loud=real(v[I.m])?norm(v[I.m]):0;
    // Automatic spin is part of the turn, so switching it off leaves the model
    // exactly where the user last dragged it instead of snapping to zero.
    gl.uniform1f(attributes.turn,(objectSpin?now*.00036:0)+objectYaw);
    gl.uniform1f(attributes.pitch,objectPitch);
    gl.uniform1f(attributes.scatter,loud);
    const pointScale=pointSize==="small"?.8:pointSize==="medium"?1.15:pointSize==="large"?1.6:1;
    gl.uniform1f(attributes.size,Math.max(1.25,1.75*objectDpr*pointScale));
    const aspect=objectW/objectH;
    gl.uniform1f(attributes.aspect,aspect);
    // The cloud is normalised to +/-1 on its longest axis, so this is the
    // largest zoom that still fits that axis inside the narrower dimension.
    // The cloud is normalised to +/-1 on its longest axis, so the base is the
    // largest zoom that still fits that axis inside the narrower dimension.
    // The wheel scales that rather than replacing it, which keeps a zoomed
    // model framed the same way after a resize.
    gl.uniform1f(attributes.zoom,Math.min(1.7,Math.max(0.3,aspect*2.6))*objectZoom);
    gl.drawArrays(gl.POINTS,0,pointCount);
  }

  function scheduleObjectSpin(){
    if(objectSpinTimer||!objectSpin||!enabled[MODULES.indexOf("object")]) return;
    objectSpinTimer=window.setTimeout(()=>{
      objectSpinTimer=0;
      if(enabled[MODULES.indexOf("object")]){
        drawObject();
        scheduleObjectSpin();
      }
    },34);
  }

  objectCanvas.addEventListener("pointerdown",event=>{
    event.preventDefault();
    objectPointer=event.pointerId; objectX=event.clientX; objectY=event.clientY;
    objectCanvas.setPointerCapture(event.pointerId);
    objectCanvas.classList.add("dragging");
  });
  objectCanvas.addEventListener("pointermove",event=>{
    if(event.pointerId!==objectPointer) return;
    objectYaw+=(event.clientX-objectX)*.012;
    objectPitch=clamp(objectPitch+(event.clientY-objectY)*.009,-1.18,1.18);
    objectX=event.clientX; objectY=event.clientY;
    requestDraw();
  });
  const releaseObject=event=>{
    if(event.pointerId!==objectPointer) return;
    if(objectCanvas.hasPointerCapture(event.pointerId)) objectCanvas.releasePointerCapture(event.pointerId);
    objectPointer=null; objectCanvas.classList.remove("dragging");
    save();
  };
  // Wheel and trackpad. `passive:false` because the gesture has to be taken
  // from the page: without preventDefault a trackpad pinch zooms the whole
  // editor, and inside a plugin window there is no way back from that.
  let objectSaveTimer=0;
  const saveObjectSoon=()=>{
    if(objectSaveTimer) return;
    objectSaveTimer=window.setTimeout(()=>{ objectSaveTimer=0; save(); },320);
  };
  objectCanvas.addEventListener("wheel",event=>{
    event.preventDefault();
    // A trackpad reports many small deltas and a wheel a few large ones, and
    // macOS sends a pinch as ctrl+wheel. Clamping the delta before the
    // exponential makes all three feel like the same gesture, and keeps one
    // fast flick from crossing the whole range.
    // Measured against both: one wheel notch (deltaY 100-120, clamped to 40)
    // moves about 1.27x, so the 0.5x-4x range is six notches wide rather than
    // two. A pinch sends many small deltas, so it gets the larger coefficient
    // per unit and still lands on a comparable feel.
    const travel=clamp(event.deltaY,-40,40)*(event.ctrlKey?0.010:0.006);
    objectZoom=clamp(objectZoom*Math.exp(-travel),OBJECT_ZOOM_MIN,OBJECT_ZOOM_MAX);
    drawObject(true);
    saveObjectSoon();
  },{passive:false});
  objectCanvas.addEventListener("dblclick",event=>{
    event.preventDefault();
    objectZoom=1; objectYaw=0; objectPitch=.42;
    drawObject(true); save();
  });

  objectCanvas.addEventListener("pointerup",releaseObject);
  objectCanvas.addEventListener("pointercancel",releaseObject);
  objectCanvas.addEventListener("lostpointercapture",()=>{
    objectPointer=null; objectCanvas.classList.remove("dragging");
    save();
  });

  /* ==== pointer readout ==================================================
     Every panel answers the same question under the cursor: what is the value
     here. The geometry comes from PROBE, written by the draw that put the
     pixels there, so a readout cannot disagree with the plot it is read off.
     Text only - the panels are never redrawn on pointer move. */
  const tip=$("tip");
"##;

/// What stands under the pointer.
pub const SCRIPT_READOUTS: &'static str = r##"  function moduleReadout(module,x,y,dpr){
    const px=x*dpr, py=y*dpr;
    if(module==="loudness"){
      const g=PROBE.loudness;
      if(!g.stripW) return "";
      const slot=Math.floor((px-g.left)/(g.stripW+g.gap));
      const cursorDb=BOTTOM_DB+(g.floor-py)/g.plotH*(TOP_DB-BOTTOM_DB);
      if(slot<0||slot>=BARS.length){
        return py>=g.top&&py<=g.floor?"cursor  "+cursorDb.toFixed(1)+" LUFS":"";
      }
      const bar=BARS[slot], value=v[bar.idx];
      const hold=holds[bar.key];
      return bar.label+"  "+(real(value)?value.toFixed(1)+" LUFS":"listening")
        +(hold&&real(hold.v)?"\npeak  "+hold.v.toFixed(1):"")
        +"\ncursor  "+cursorDb.toFixed(1);
    }
    if(module==="vu"){
      const g=PROBE.vu;
      if(!g.stripW) return "";
      const slot=Math.floor((px-g.left)/(g.stripW+g.gap));
      if(slot<0||slot>1) return "";
      const [label,valueIndex,holdIndex]=VU_ROWS[slot];
      const value=v[valueIndex], hold=v[holdIndex];
      return label+"  "+(real(value)?value.toFixed(1)+" dB":"listening")
        +(real(hold)?"\npeak  "+hold.toFixed(1):"")
        +"\nref  "+vuCalibration+" dB · "+vuMode;
    }
    if(module==="spectrum"){
      const g=PROBE.spectrum;
      if(!g.w) return "";
      const hz=positionHz(px/g.w);
      const band=clamp(Math.round(bandPosition(hz)*(BANDS-1)),0,BANDS-1);
      const live=slotDb(smoothedSpectrum[band])+spectrumTilt(band);
      const peak=slotDb(spectrumPeak[band])+spectrumTilt(band);
      const cursorDb=SPECTRUM_FLOOR_DB
        +(g.axis-py)/g.span*(SPECTRUM_TOP_DB-SPECTRUM_FLOOR_DB);
      return hzText(hz)+"\nlevel  "+live.toFixed(1)+" dBFS"
        +(spectrumTrace?"\npeak  "+peak.toFixed(1):"")
        +"\ncursor  "+cursorDb.toFixed(1);
    }
    if(module==="spectrogram"){
      const g=PROBE.spectrogram;
      if(!g.h) return "";
      const hz=positionHz(1-py/g.h);
      // Columns are pushed on drawn frames, so age is counted in columns
      // rather than claimed in seconds the page cannot actually know.
      const column=Math.floor(px/g.w*ROWS);
      const age=clamp(g.filled-column,0,ROWS);
      return hzText(hz)+"\n"+(column<g.filled?age+" columns back":"no history here")
        +"\nhistory  "+Math.round(historyLength/ROWS*100)+"% of "+ROWS;
    }
    if(module==="waveform"){
      const g=PROBE.waveform;
      if(!g.w) return "";
      const point=clamp(Math.round(px/g.w*(WAVE_POINTS-1)),0,WAVE_POINTS-1);
      const high=v[I.waveMax+point]||0, low=v[I.waveMin+point]||0;
      const cursor=(g.mid-py)/g.scale;
      // Peak-to-peak in dB, which is the number an envelope is read for.
      const peak=Math.max(Math.abs(high),Math.abs(low));
      return "peak  "+(peak>0?(20*Math.log10(peak)).toFixed(1)+" dBFS":"silence")
        +"\nrange  "+low.toFixed(3)+" .. "+high.toFixed(3)
        +"\ncursor  "+cursor.toFixed(3);
    }
    if(module==="oscilloscope"){
      const g=PROBE.oscilloscope;
      if(!g.w) return "";
      const point=clamp(Math.round(px/g.w*(OSCILLOSCOPE_POINTS-1)),0,OSCILLOSCOPE_POINTS-1);
      const left=clamp(v[I.oscilloscope+point*2],-1,1);
      const right=clamp(v[I.oscilloscope+point*2+1],-1,1);
      if(oscStyle==="sum") return "sum  "+((left+right)*.5).toFixed(3);
      const lane=g.lanes>1?Math.floor(py/g.laneH):-1;
      return "L  "+left.toFixed(3)+"\nR  "+right.toFixed(3)
        +(lane===0?"\nlane  L":lane===1?"\nlane  R":"");
    }
    if(module==="stereo"){
      if(stereoStyle==="vectorscope"){
        const corr=Number.isFinite(v[I.corr])?v[I.corr]:0;
        return "correlation  "+(corr>=0?"+":"")+corr.toFixed(2)
          +"\nwidth  "+(Number.isFinite(v[I.width])?v[I.width].toFixed(2):"--");
      }
      const g=PROBE.stereo;
      if(!g.w) return "";
      const position=clamp(px/g.w*2-1,-1,1);
      const bin=clamp(Math.round((position+1)*.5*(PAN_BINS-1)),0,PAN_BINS-1);
      const share=clamp(pan[bin]/panScale,0,1);
      const side=position<-0.02?"left":position>0.02?"right":"centre";
      return side+"  "+Math.round(Math.abs(position)*100)+"%"
        +"\nenergy  "+Math.round(share*100)+"%"
        +"\ncorrelation  "+(Number.isFinite(v[I.corr])?(v[I.corr]>=0?"+":"")+v[I.corr].toFixed(2):"--");
    }
    if(module==="object"){
      return (pointCount?pointCount.toLocaleString()+" points":"no cloud")
        +"\nzoom  "+objectZoom.toFixed(2)+"x"
        +"\nscroll to zoom · double-click resets";
    }
    if(module==="visuals") return "driven by the spectrum\nnot a measurement";
    return "";
  }
  function hideTip(){
    if(!tip.hidden) tip.hidden=true;
  }
  function showTip(event){
    if(!hoverReadout||!$("sheet").hidden) return hideTip();
    const box=event.target.closest?.(".box");
    const canvas=box&&box.querySelector("canvas");
    if(!box||!canvas||event.target!==canvas) return hideTip();
    const module=box.dataset.module;
    const rect=canvas.getBoundingClientRect();
    const dpr=Math.min(devicePixelRatio||1,2);
    const text=moduleReadout(module,event.clientX-rect.left,event.clientY-rect.top,dpr);
    if(!text) return hideTip();
    if(tip.textContent!==text) tip.textContent=text;
    tip.hidden=false;
    // Placed against the viewport, flipping before it would leave it. A plugin
    // window does not scroll, so anything past the edge is simply gone.
    const width=tip.offsetWidth, height=tip.offsetHeight;
    let x=event.clientX+13, y=event.clientY+13;
    if(x+width>innerWidth-4) x=event.clientX-width-13;
    if(y+height>innerHeight-4) y=event.clientY-height-13;
    tip.style.left=Math.max(4,x)+"px";
    tip.style.top=Math.max(4,y)+"px";
  }
  $("row").addEventListener("pointermove",showTip);
  $("row").addEventListener("pointerleave",hideTip);
  $("row").addEventListener("pointerdown",hideTip);
  window.addEventListener("blur",hideTip);

  /* ==== readouts ========================================================= */
"##;

/// Taking frames and drawing them.
pub const SCRIPT_FRAMES: &'static str = r##"  function writeOutput(el,text,className=""){
    if(el.dataset.netaText!==text){ el.dataset.netaText=text; el.textContent=text; }
    if(el.className!==className) el.className=className;
  }
  function readout(id,value,digits,unit,hot){
    const el=$(id);
    if(!real(value)){ writeOutput(el,"listening","pending"); return; }
    writeOutput(el,value.toFixed(digits)+(unit?" "+unit:""),hot?"hot":"");
  }

  /* ==== frame ============================================================ */
  const DRAW={loudness:drawLoudness,vu:drawVu,spectrum:drawSpectrum,spectrogram:drawSpectrogram,
              waveform:drawWaveform,oscilloscope:drawOscilloscope,stereo:drawStereo,
              object:drawObject,visuals:drawVisuals};
  let RENDER_MS=0;
  function refreshRenderRate(){
    RENDER_MS=renderFps==="60"?1000/60:renderFps==="30"?1000/30:renderFps==="15"?1000/15:0;
  }
  const requestPaint=window.requestAnimationFrame
    ? callback=>window.requestAnimationFrame(callback)
    : callback=>window.setTimeout(()=>callback(performance.now()),0);
  let scheduledDraw=false, renderTimer=0, lastRender=-Infinity, dataDirty=false;

  function draw(){
    if(dataDirty){
      clock++;
      if(!spectrumHold){ updateSpectrum(); pushSpectrogram(); }
      pushStereo();
      dataDirty=false;
    }
    MODULES.forEach((name,index)=>{ if(enabled[index]) DRAW[name](); });
    readout("int",v[I.int],1,"LUFS");
    readout("lra",v[I.lra],1,"LU");
    readout("psr",v[I.psr],1,"LU");
    readout("plr",v[I.plr],1,"LU");
    const tp=v[I.tp];
    readout("tp",tp,1,"dBTP",real(tp)&&tp>TP_CEILING);
    const corr=Number.isFinite(v[I.corr])?v[I.corr]:0;
    const c=$("corr");
    writeOutput(c,(corr>=0?"+":"")+corr.toFixed(2),corr<0?"hot":"");
    writeOutput($("width"),(Number.isFinite(v[I.width])?v[I.width]:0).toFixed(2));
    const integrated=v[I.int];
    const hint=real(integrated)
      ? integrated.toFixed(1)+" LUFS · target "+targetLufs
      : "listening";
    if($("hint").textContent!==hint) $("hint").textContent=hint;
  }

  function requestDraw(){
    if(scheduledDraw||renderTimer) return;
    scheduledDraw=true;
    requestPaint(now=>{
      scheduledDraw=false;
      const wait=RENDER_MS-(now-lastRender);
      if(wait>0){
        renderTimer=window.setTimeout(()=>{ renderTimer=0; requestDraw(); },Math.ceil(wait));
        return;
      }
      lastRender=now;
      draw();
    });
  }

  window.__neta_frame=payload=>{
    if(payload instanceof Float32Array){
      if(payload.length!==SCOPE_SLOTS) return;
      v.set(payload);
    }else if(typeof payload!=="string"||!decodeBase64Frame(payload)){
      return;
    }
    dataDirty=true;
    requestDraw();
  };

  /* ==== settings ========================================================= */
  const chips=$("moduleChips"), targetChips=$("targetChips"), row=$("row");
  const boxes={};
  for(const box of row.querySelectorAll(".box")) boxes[box.dataset.module]=box;

  MODULES.forEach((name,index)=>{
    const chip=document.createElement("button");
    chip.className="chip"; chip.type="button"; chip.textContent=name;
    chip.addEventListener("click",()=>{ enabled[index]=!enabled[index]; applySettings(); save(); });
    chips.appendChild(chip);
  });

  TARGETS.forEach(target=>{
    const chip=document.createElement("button");
    chip.className="chip"; chip.type="button"; chip.dataset.target=target;
    chip.textContent=target+" LUFS";
    chip.setAttribute("aria-label","Set delivery target to "+target+" LUFS");
    chip.addEventListener("click",()=>{ targetLufs=target; applySettings(); save(); });
    targetChips.appendChild(chip);
  });

  // Settings live in state, never in a second shadow model. Each choice
  // changes one scalar, redraws locally, then sends the compact v2 block.
  const choiceBindings=[];
"##;

} // verus!
