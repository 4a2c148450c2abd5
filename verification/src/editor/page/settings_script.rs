//! The page's script: the drawer, the rail and what the plugin calls.
use vstd::prelude::*;

verus! {

/// The drawer's choices.
pub const SCRIPT_CHOICES: &'static str = r##"  function choices(id,entries){
    const container=$(id);
    entries.forEach(entry=>{
      const chip=document.createElement("button");
      chip.className="chip"; chip.type="button"; chip.textContent=entry.label;
      chip.addEventListener("click",()=>{ entry.select(); applySettings(); save(); });
      entry.node=chip; container.appendChild(chip);
    });
    choiceBindings.push(entries);
  }
  function syncChoices(){
    choiceBindings.forEach(entries=>entries.forEach(entry=>{
      entry.node.setAttribute("aria-pressed",entry.active()?"true":"false");
    }));
  }
  const setTheme=value=>{ theme=value; };
  choices("themeChips",["midnight","coal","mono"].map(value=>({label:value,active:()=>theme===value,select:()=>setTheme(value)})));
  choices("mapChips",["neta","inferno","viridis"].map(value=>({label:value,active:()=>colorMap===value,select:()=>{colorMap=value; buildHeatLut();}})));
  choices("fpsChips",[["vsync","VSync"],["60","60 FPS"],["30","30 FPS"],["15","15 FPS"]].map(([value,label])=>({label,active:()=>renderFps===value,select:()=>{renderFps=value;}})));
  choices("routeChips",[["stereo","Stereo"],["left","L"],["right","R"],["mid","M"],["side","S"]].map(([value,label])=>({
    label, active:()=>route===value,
    select:()=>{ if(route!==value){ route=value; resetSpectrumView(); } },
  })));
  choices("fftChips",[1024,2048,4096,8192,16384].map(value=>({
    label:String(value), active:()=>fftSize===value,
    select:()=>{ if(fftSize!==value){ fftSize=value; resetSpectrumView(); } },
  })));
  choices("scaleChips",["log","mel","linear"].map(value=>({
    label:value, active:()=>spectrumScale===value,
    select:()=>{ if(spectrumScale!==value){ spectrumScale=value; resetSpectrumView(); } },
  })));
  choices("styleChips",["fft","bars","both"].map(value=>({label:value,active:()=>spectrumStyle===value,select:()=>{spectrumStyle=value;}})));
  choices("vuChips",["vu","rms","peak"].map(value=>({label:value,active:()=>vuMode===value,select:()=>{vuMode=value;}})));
  choices("oscChips",[
    {label:"Pitch",active:()=>oscMode==="pitch",select:()=>{oscMode="pitch";}},
    {label:"Free",active:()=>oscMode==="free",select:()=>{oscMode="free";}},
    {label:"Single",active:()=>oscCycles==="single",select:()=>{oscCycles="single";}},
    {label:"Multi",active:()=>oscCycles==="multi",select:()=>{oscCycles="multi";}},
  ]);
  choices("loudnessChips",[
    {label:"timeline",active:()=>loudnessTimeline,select:()=>{loudnessTimeline=!loudnessTimeline;}},
    {label:"histogram",active:()=>loudnessHistogram,select:()=>{loudnessHistogram=!loudnessHistogram;}},
    {label:"overs",active:()=>loudnessOvers,select:()=>{loudnessOvers=!loudnessOvers;}},
  ]);
  choices("spectrogramChips",["off","fast","slow"].map(value=>({label:value,active:()=>spectrogramHistoryMode===value,select:()=>{
    if(spectrogramHistoryMode!==value){ spectrogramHistoryMode=value; clearSpectrogram(); }
  }})));
  choices("waveformChips",["pink","cyan","amber"].map(value=>({label:value,active:()=>waveformColor===value,select:()=>{waveformColor=value;}})));
  choices("historyChips",[
    {label:"loop",active:()=>spectrogramLoop,select:()=>{spectrogramLoop=!spectrogramLoop;}},
    {label:"timecode",active:()=>spectrogramTimecode,select:()=>{spectrogramTimecode=!spectrogramTimecode;}},
    {label:"hold",active:()=>spectrumHold,select:()=>{spectrumHold=!spectrumHold;}},
  ]);
  choices("stereoStyleChips",["linear","vectorscope"].map(value=>({label:value,active:()=>stereoStyle===value,select:()=>{stereoStyle=value;}})));
  choices("stereoColorChips",["static","rgb","multiband"].map(value=>({label:value,active:()=>stereoColor===value,select:()=>{stereoColor=value;}})));
  choices("oscViewChips",["overlay","split","sum"].map(value=>({
    label:value, active:()=>oscStyle===value, select:()=>{oscStyle=value;}})));
  choices("oscGainChips",GAINS.map(value=>({
    label:value+"x", active:()=>oscGain===value, select:()=>{oscGain=value;}})));
  choices("traceChips",[
    {label:"peak trace",active:()=>spectrumTrace,select:()=>{spectrumTrace=!spectrumTrace;}},
  ]);
  choices("waveStyleChips",["band","bars","line"].map(value=>({
    label:value, active:()=>waveformStyle===value, select:()=>{waveformStyle=value;}})));
  choices("waveGainChips",GAINS.map(value=>({
    label:value+"x", active:()=>waveformGain===value, select:()=>{waveformGain=value;}})));
  choices("chromeChips",["bare","framed"].map(value=>({
    label:value, active:()=>chrome===value,
    select:()=>{ chrome=value; },
  })));
  choices("hoverChips",[
    {label:"hover readout",active:()=>hoverReadout,select:()=>{
      hoverReadout=!hoverReadout;
      if(!hoverReadout) hideTip();
    }},
  ]);
  choices("objectChips",[
    {label:"auto spin",active:()=>objectSpin,select:()=>{
      objectSpin=!objectSpin;
      if(objectSpin) scheduleObjectSpin();
      drawObject(true);
    }},
    {label:"reset view",active:()=>false,select:()=>{
      objectZoom=1; objectYaw=0; objectPitch=.42; drawObject(true);
    }},
  ]);
  choices("pointSizeChips",["auto","small","medium","large"].map(value=>({label:value,active:()=>pointSize===value,select:()=>{pointSize=value;}})));

  let actionCounters=[0,0,0];
  function fireAction(index){
    const next=actionCounters[index]>=65535?0:actionCounters[index]+1;
    actionCounters[index]=next;
    post("begin "+index); post("set "+index+" "+next); post("end "+index);
  }
  const actionEntries=[["Reset",0],["Capture A",1],["Capture B",2]];
  actionEntries.forEach(([label,index])=>{
    const chip=document.createElement("button");
    chip.className="chip"; chip.type="button"; chip.textContent=label;
    chip.addEventListener("click",()=>fireAction(index));
    $("actionChips").appendChild(chip);
  });
  $("actionReset").addEventListener("click",()=>fireAction(0));
  $("actionCaptureA").addEventListener("click",()=>fireAction(1));
  $("actionCaptureB").addEventListener("click",()=>fireAction(2));

  function applyBuiltinPreset(value){
    preset=value;
    enabled=MODULES.map(name=>name!=="visuals");
    // A preset is a whole view, so every display choice it does not name is
    // returned to its default rather than inherited from whatever was set.
    waveformStyle="band"; waveformGain=1; oscStyle="overlay"; oscGain=1;
    spectrumTrace=true;
    if(value==="mix"){
      targetLufs=-14; fftSize=2048; spectrumScale="log"; spectrumStyle="both";
      loudnessTimeline=true; loudnessHistogram=true;
    }else if(value==="master"){
      targetLufs=-14; fftSize=4096; spectrumScale="log"; spectrumStyle="both";
      loudnessTimeline=true; loudnessHistogram=true; loudnessOvers=true;
    }else if(value==="scope"){
      targetLufs=-14; fftSize=1024; spectrumScale="linear"; spectrumStyle="fft";
      enabled=MODULES.map(name=>["spectrum","waveform","oscilloscope","stereo"].includes(name));
      // A scope view is read for shape, not for level: split channels, both
      // panels zoomed in, and the waveform as columns rather than a body.
      oscMode="pitch"; oscCycles="multi"; oscStyle="split"; oscGain=2;
      waveformStyle="bars"; waveformGain=2;
    }else{
      targetLufs=DEFAULT_TARGET; fftSize=2048; spectrumScale="log"; spectrumStyle="both";
      loudnessTimeline=true; loudnessHistogram=true; loudnessOvers=true;
    }
  }
  choices("presetChips",["default","mix","master","scope"].map(value=>({label:value,active:()=>preset===value,select:()=>applyBuiltinPreset(value)})));

"##;

/// Preset slots and the order of the rail.
pub const SCRIPT_SLOTS: &'static str = r##"  function snapshot(){
    return {v:2,e:enabled,o:order,w:widths,model:modelPath,target:targetLufs,theme,map:colorMap,fps:renderFps,
      route,trim:trimDb,fft:fftSize,scale:spectrumScale,style:spectrumStyle,smooth:smoothing,tilt:tiltDb,
      hold:spectrumHold,vu:vuMode,cal:vuCalibration,osc:oscMode,cycles:oscCycles,timeline:loudnessTimeline,
      hist:loudnessHistogram,overs:loudnessOvers,sphist:spectrogramHistoryMode,speed:spectrogramSpeed,
      loop:spectrogramLoop,timecode:spectrogramTimecode,stereo:stereoStyle,stereocolor:stereoColor,
      points:pointSize,wavecolor:waveformColor,wavestyle:waveformStyle,wavegain:waveformGain,
      oscstyle:oscStyle,oscgain:oscGain,trace:spectrumTrace,hover:hoverReadout,chrome,
      oy:objectTenths(objectYaw),op:objectTenths(objectPitch),
      oz:Math.round(clamp(objectZoom,OBJECT_ZOOM_MIN,OBJECT_ZOOM_MAX)*10),ospin:objectSpin,preset};
  }
  function saveSlot(index){
    try{ slots[index]=btoa(JSON.stringify(snapshot())); }catch(_){ slots[index]=""; }
    save(); syncSlots();
  }
  function loadSlot(index){
    if(!slots[index]) return;
    try{
      const restored=JSON.parse(atob(slots[index]));
      restored.slots=slots.slice();
      window.__neta_settings(restored); save();
    }catch(_){ slots[index]=""; save(); }
    syncSlots();
  }
  function syncSlots(){
    const container=$("slotChips");
    container.textContent="";
    slots.forEach((slot,index)=>{
      const saveButton=document.createElement("button");
      saveButton.className="chip"; saveButton.type="button"; saveButton.textContent="Save "+(index+1);
      saveButton.addEventListener("click",()=>saveSlot(index));
      const loadButton=document.createElement("button");
      loadButton.className="chip"; loadButton.type="button"; loadButton.textContent="Load "+(index+1);
      loadButton.disabled=!slot; loadButton.setAttribute("aria-pressed",slot?"true":"false");
      loadButton.addEventListener("click",()=>loadSlot(index));
      container.append(saveButton,loadButton);
    });
  }

  window.__seco_update=params=>{
    if(!Array.isArray(params)) return;
    params.slice(0,3).forEach((param,index)=>{
      const min=Number(param&&param.min), max=Number(param&&param.max), normalized=Number(param&&param.v);
      if(Number.isFinite(min)&&Number.isFinite(max)&&Number.isFinite(normalized)){
        actionCounters[index]=Math.round(min+(max-min)*clamp(normalized,0,1));
      }
    });
  };

  // Rebuild rail so order, visibility, and dividers always agree.
  function layout(){
    row.textContent="";
    for(const box of Object.values(boxes)) delete box.dataset.drop;
    const visible=order.filter(module=>enabled[module]);
    visible.forEach((module,position)=>{
      if(position>0) row.appendChild(makeGrip(visible[position-1],module));
      const box=boxes[MODULES[module]];
      box.hidden=false;
      box.style.flexGrow=widths[module];
      row.appendChild(box);
    });
    for(const [name,box] of Object.entries(boxes)){
      if(!enabled[MODULES.indexOf(name)]) box.hidden=true;
    }
    invalidateCanvases();
  }

  /* ==== reordering and hiding from the panel headers =======================
     `order` also holds the hidden modules, so a drop cannot be two splices on
     it: the visible sequence is rebuilt and written back over the positions
     that were visible, which keeps the hidden ones where they were and keeps
     `order` a permutation. */
  function visibleOrder(){
    return order.filter(module=>enabled[module]);
  }
  function setVisibleOrder(nextVisible){
    let cursor=0;
    order=order.map(module=>(enabled[module]?nextVisible[cursor++]:module));
  }
  // Where the pointer would insert, as a position in the visible sequence.
  // Taken from live box geometry, so a wide panel and a narrow one behave the
  // same instead of the wide one being easier to aim at.
  function dropSlot(clientX){
    const visible=visibleOrder();
    for(let position=0;position<visible.length;position++){
      const rect=boxes[MODULES[visible[position]]].getBoundingClientRect();
      if(clientX<rect.left+rect.width*.5) return position;
    }
    return visible.length;
  }
  function markDrop(slot){
    const visible=visibleOrder();
    for(const module of visible) delete boxes[MODULES[module]].dataset.drop;
    if(slot===null||!visible.length) return;
    if(slot>=visible.length){
      boxes[MODULES[visible[visible.length-1]]].dataset.drop="after";
    }else{
      boxes[MODULES[visible[slot]]].dataset.drop="before";
    }
  }
  let capDrag=null;
  function endCapDrag(commit,clientX){
    if(!capDrag) return;
    const {cap,module,box}=capDrag;
    capDrag=null;
    cap.classList.remove("dragging");
    box.classList.remove("carrying");
    markDrop(null);
    if(!commit) return;
    const visible=visibleOrder();
    const from=visible.indexOf(module);
    let slot=dropSlot(clientX);
    // The slot indexes a list that still contains the dragged panel, so every
    // position past its own is one to the left once it is lifted out.
    if(slot>from) slot-=1;
    if(slot===from||from<0) return;
    const next=visible.slice();
    next.splice(from,1);
    next.splice(clamp(slot,0,next.length),0,module);
    setVisibleOrder(next);
    applySettings(); save();
  }
  for(const [name,box] of Object.entries(boxes)){
    const cap=box.querySelector(".cap");
    if(!cap) continue;
    const hide=document.createElement("button");
    hide.className="capHide"; hide.type="button";
    hide.textContent="\u00d7";
    hide.title="Hide "+name;
    hide.setAttribute("aria-label","Hide the "+name+" panel");
    hide.addEventListener("pointerdown",event=>event.stopPropagation());
    hide.addEventListener("click",()=>{
      // Never hide the last one: an empty rail has no way back to itself.
      if(visibleOrder().length<2) return;
      enabled[MODULES.indexOf(name)]=false;
      applySettings(); save();
    });
    cap.appendChild(hide);

    cap.addEventListener("pointerdown",event=>{
      if(event.pointerType==="mouse"&&event.button!==0) return;
      if(visibleOrder().length<2) return;
      event.preventDefault();
      cap.setPointerCapture(event.pointerId);
      capDrag={pointerId:event.pointerId,cap,box,module:MODULES.indexOf(name),
               startX:event.clientX,moved:false};
    });
    cap.addEventListener("pointermove",event=>{
      if(!capDrag||event.pointerId!==capDrag.pointerId) return;
      // A few pixels of slack, so a click on the header is a click and not a
      // reorder to where it already was.
      if(!capDrag.moved){
        if(Math.abs(event.clientX-capDrag.startX)<4) return;
        capDrag.moved=true;
        cap.classList.add("dragging");
        box.classList.add("carrying");
      }
      markDrop(dropSlot(event.clientX));
    });
    cap.addEventListener("pointerup",event=>{
      if(!capDrag||event.pointerId!==capDrag.pointerId) return;
      endCapDrag(capDrag.moved,event.clientX);
    });
    cap.addEventListener("pointercancel",()=>endCapDrag(false,0));
    cap.addEventListener("lostpointercapture",()=>endCapDrag(false,0));
  }

"##;

/// Dividers and applying settings.
pub const SCRIPT_GRIPS: &'static str = r##"  function makeGrip(left,right){
    const grip=document.createElement("div");
    grip.className="grip";
    grip.setAttribute("role","separator");
    grip.setAttribute("aria-label","Resize "+MODULES[left]+" and "+MODULES[right]);
    grip.addEventListener("pointerdown",event=>{
      event.preventDefault();
      grip.setPointerCapture(event.pointerId);
      grip.classList.add("dragging");
      const startX=event.clientX, total=widths[left]+widths[right];
      const pairPixels=boxes[MODULES[left]].offsetWidth+boxes[MODULES[right]].offsetWidth;
      const perPixel=pairPixels>0?total/pairPixels:0;
      const drag=moveEvent=>{
        const shift=(moveEvent.clientX-startX)*perPixel;
        const next=Math.round(Math.min(total-MIN_WIDTH,Math.max(MIN_WIDTH,widths[left]+shift)));
        boxes[MODULES[left]].style.flexGrow=next;
        boxes[MODULES[right]].style.flexGrow=total-next;
        grip.dataset.left=next;
      };
      const drop=()=>{
        grip.classList.remove("dragging");
        grip.removeEventListener("pointermove",drag);
        grip.removeEventListener("pointerup",drop);
        grip.removeEventListener("pointercancel",drop);
        const next=Number(grip.dataset.left);
        if(Number.isFinite(next)&&next>=MIN_WIDTH&&next<=MAX_WIDTH){
          widths[left]=next; widths[right]=total-next;
          save();
        }
        invalidateCanvases();
        requestDraw();
      };
      grip.dataset.left=widths[left];
      grip.addEventListener("pointermove",drag);
      grip.addEventListener("pointerup",drop);
      grip.addEventListener("pointercancel",drop);
    });
    return grip;
  }

  function applySettings(){
    MODULES.forEach((name,index)=>{
      chips.children[index].setAttribute("aria-pressed",enabled[index]?"true":"false");
    });
    for(const chip of targetChips.children){
      chip.setAttribute("aria-pressed",Number(chip.dataset.target)===targetLufs?"true":"false");
    }
    document.documentElement.dataset.theme=theme;
    // Chrome changes every canvas's height, so this has to land before the
    // layout pass below retires the fit cache.
    shell.dataset.chrome=chrome;
    readInk();
    buildHeatLut();
    refreshRenderRate();
    layout();
    // The last visible panel says so rather than silently ignoring the click.
    const alone=visibleOrder().length<2;
    for(const box of Object.values(boxes)){
      const hide=box.querySelector(".capHide");
      if(hide) hide.disabled=alone;
    }
    syncChoices(); syncSlots();
    $("modelPath").value=modelPath;
    $("trimInput").value=trimDb;
    $("smoothingInput").value=smoothing;
    $("tiltInput").value=tiltDb;
    $("calibrationInput").value=vuCalibration;
    $("speedInput").value=spectrogramSpeed;
    scheduleObjectSpin();
    requestDraw();
  }
  function numberControl(id,minimum,maximum,assign){
    $(id).addEventListener("change",event=>{
      const value=Number(event.currentTarget.value);
      if(!Number.isFinite(value)) return;
      assign(clamp(Math.round(value),minimum,maximum));
      applySettings(); save();
    });
  }
  numberControl("trimInput",-24,24,value=>{if(trimDb!==value){trimDb=value; resetSpectrumView();}});
  numberControl("smoothingInput",0,100,value=>{smoothing=value;});
  numberControl("tiltInput",-18,18,value=>{tiltDb=value;});
  numberControl("calibrationInput",-36,-6,value=>{vuCalibration=value;});
  numberControl("speedInput",1,4,value=>{spectrogramSpeed=value;});
  const asFlag=value=>value?"1":"0";
  const objectTenths=value=>Math.round(clamp(value*180/Math.PI*10,-3600,3600));
  const save=()=>{
    const state=[
      "v=2","m="+enabled.map(asFlag).join(""),"o="+order.join(""),"w="+widths.join(","),
      "theme="+theme,"map="+colorMap,"fps="+renderFps,"route="+route,"trim="+trimDb,
      "fft="+fftSize,"scale="+spectrumScale,"style="+spectrumStyle,"smooth="+smoothing,
      "tilt="+tiltDb,"hold="+asFlag(spectrumHold),"vu="+vuMode,"cal="+vuCalibration,
      "osc="+oscMode,"cycles="+oscCycles,"timeline="+asFlag(loudnessTimeline),
      "hist="+asFlag(loudnessHistogram),"overs="+asFlag(loudnessOvers),
      "sphist="+spectrogramHistoryMode,"speed="+spectrogramSpeed,"loop="+asFlag(spectrogramLoop),
      "timecode="+asFlag(spectrogramTimecode),"stereo="+stereoStyle,
      "stereocolor="+stereoColor,"points="+pointSize,"wavecolor="+waveformColor,
      "wavestyle="+waveformStyle,"wavegain="+waveformGain,"oscstyle="+oscStyle,
      "oscgain="+oscGain,"trace="+asFlag(spectrumTrace),"hover="+asFlag(hoverReadout),
      "chrome="+chrome,
      "oy="+objectTenths(objectYaw),"op="+objectTenths(objectPitch),
      "oz="+Math.round(clamp(objectZoom,OBJECT_ZOOM_MIN,OBJECT_ZOOM_MAX)*10),
      "ospin="+asFlag(objectSpin),"preset="+preset,"target="+targetLufs
    ];
    if(modelPath&&!/[;\n\r]/.test(modelPath)) state.push("model="+modelPath);
    // Base64 snapshots legitimately end in '='. Semicolon is the one
    // state-field delimiter, so reject it and line breaks — not padding.
    slots.forEach((slot,index)=>{ if(slot&&!/[;\n\r]/.test(slot)) state.push("slot"+index+"="+slot); });
    post("state "+state.join(";"));
  };

  // Pushed by Plugin::editor_script from the same state block the session
  // stores, so the window opens the way it was left.
"##;

/// What the plugin calls, and the end of the page.
pub const SCRIPT_ENTRY: &'static str = r##"  window.__neta_settings=config=>{
    if(!config||typeof config!=="object") return;
    if(Array.isArray(config.e)&&config.e.length===MODULES.length){
      enabled=MODULES.map((_,index)=>config.e[index]!==false);
    }
    if(Array.isArray(config.o)&&config.o.length===MODULES.length
       &&config.o.every(value=>Number.isInteger(value)&&value>=0&&value<MODULES.length)
       &&new Set(config.o).size===MODULES.length) order=config.o.slice();
    if(Array.isArray(config.w)&&config.w.length===MODULES.length
       &&config.w.every(value=>Number.isFinite(value)&&value>=MIN_WIDTH&&value<=MAX_WIDTH)) widths=config.w.slice();
    modelPath=typeof config.model==="string"?config.model:"";
    if(Number.isFinite(config.target)&&TARGETS.includes(config.target)) targetLufs=config.target;
    const pick=(value,choices,current)=>choices.includes(value)?value:current;
    theme=pick(config.theme,["midnight","coal","mono"],theme);
    colorMap=pick(config.map,["neta","inferno","viridis"],colorMap);
    renderFps=pick(config.fps,["vsync","60","30","15"],renderFps);
    const nextRoute=pick(config.route,["stereo","left","right","mid","side"],route);
    const nextTrim=Number.isFinite(config.trim)?clamp(Math.round(config.trim),-24,24):trimDb;
    const nextFft=[1024,2048,4096,8192,16384].includes(config.fft)?config.fft:fftSize;
    const nextScale=pick(config.scale,["log","mel","linear"],spectrumScale);
    if(nextRoute!==route||nextTrim!==trimDb||nextFft!==fftSize||nextScale!==spectrumScale){
      resetSpectrumView();
    }
    route=nextRoute; trimDb=nextTrim; fftSize=nextFft; spectrumScale=nextScale;
    spectrumStyle=pick(config.style,["fft","bars","both"],spectrumStyle);
    if(Number.isFinite(config.smooth)) smoothing=clamp(Math.round(config.smooth),0,100);
    if(Number.isFinite(config.tilt)) tiltDb=clamp(Math.round(config.tilt),-18,18);
    spectrumHold=config.hold===true;
    vuMode=pick(config.vu,["vu","rms","peak"],vuMode);
    if(Number.isFinite(config.cal)) vuCalibration=clamp(Math.round(config.cal),-36,-6);
    oscMode=pick(config.osc,["pitch","free"],oscMode);
    oscCycles=pick(config.cycles,["single","multi"],oscCycles);
    oscStyle=pick(config.oscstyle,["overlay","split","sum"],oscStyle);
    waveformStyle=pick(config.wavestyle,["band","bars","line"],waveformStyle);
    if(GAINS.includes(config.wavegain)) waveformGain=config.wavegain;
    if(GAINS.includes(config.oscgain)) oscGain=config.oscgain;
    chrome=pick(config.chrome,["bare","framed"],chrome);
    spectrumTrace=config.trace!==false;
    hoverReadout=config.hover!==false;
    objectSpin=config.ospin!==false;
    if(Number.isFinite(config.oz)){
      objectZoom=clamp(config.oz/10,OBJECT_ZOOM_MIN,OBJECT_ZOOM_MAX);
    }
    loudnessTimeline=config.timeline!==false; loudnessHistogram=config.hist!==false;
    loudnessOvers=config.overs!==false;
    const nextHistory=pick(config.sphist,["off","fast","slow"],spectrogramHistoryMode);
    if(nextHistory!==spectrogramHistoryMode){ spectrogramHistoryMode=nextHistory; clearSpectrogram(); }
    if(Number.isFinite(config.speed)) spectrogramSpeed=clamp(Math.round(config.speed),1,4);
    spectrogramLoop=config.loop!==false; spectrogramTimecode=config.timecode===true;
    stereoStyle=pick(config.stereo,["linear","vectorscope"],stereoStyle);
    stereoColor=pick(config.stereocolor,["static","rgb","multiband"],stereoColor);
    pointSize=pick(config.points,["auto","small","medium","large"],pointSize);
    waveformColor=pick(config.wavecolor,["pink","cyan","amber"],waveformColor);
    if(Number.isFinite(config.oy)) objectYaw=config.oy/10*Math.PI/180;
    if(Number.isFinite(config.op)) objectPitch=clamp(config.op/10*Math.PI/180,-1.18,1.18);
    preset=pick(config.preset,["default","mix","master","scope"],preset);
    if(Array.isArray(config.slots)&&config.slots.length===4) slots=config.slots.map(slot=>typeof slot==="string"?slot:"");
    applySettings();
    if(modelPath) post("msg model "+modelPath);
  };
  window.__neta_model=(name,points)=>{
    setCloud(new Float32Array(points));
    $("objectNote").textContent=name+" · drag to orbit";
    $("modelStatus").textContent=name+" loaded \u2014 "+pointCount.toLocaleString()+" points.";
  };
  window.__neta_model_failed=reason=>{
    $("objectNote").textContent="no model";
    $("modelStatus").textContent=reason;
  };

  /* ==== settings drawer ==================================================
     One tab visible at a time. Every group the old sheet stacked downwards is
     a tab here, which is what lets the drawer stay short enough for the rail
     above it to keep working - the point of a meter's settings is watching the
     meter answer while you change them. */
  const sheet=$("sheet"), gear=$("gear"), shell=document.querySelector(".shell");
  const pages=$("pages"), tabsBar=$("tabs"), tabSpace=tabsBar.querySelector(".tabSpace");
  let settingsTab="layout";
  const tabButtons=[...pages.children].map(page=>{
    const button=document.createElement("button");
    button.className="tab"; button.type="button";
    button.dataset.tab=page.dataset.tab;
    button.setAttribute("role","tab");
    button.textContent=page.dataset.tab;
    button.addEventListener("click",()=>selectTab(page.dataset.tab));
    tabsBar.insertBefore(button,tabSpace);
    return button;
  });
  function selectTab(name){
    settingsTab=name;
    for(const page of pages.children){
      page.dataset.active=page.dataset.tab===name?"true":"false";
    }
    for(const button of tabButtons){
      button.setAttribute("aria-selected",button.dataset.tab===name?"true":"false");
    }
    // A tab is a different amount of content, so the scroll position from the
    // last one means nothing here.
    pages.scrollTop=0;
  }
  selectTab(settingsTab);

  const openSheet=open=>{
    sheet.hidden=!open;
    shell.classList.toggle("tuning",open);
    gear.setAttribute("aria-expanded",open?"true":"false");
    if(open) selectTab(settingsTab); else gear.focus({preventScroll:true});
    // The rail just changed height. Every canvas has to be remeasured before
    // the next frame: drawing new geometry into a stale backing store is
    // exactly what made the panels look torn.
    invalidateCanvases();
    layout();
    requestDraw();
    drawObject(true);
  };
  gear.addEventListener("click",()=>openSheet(sheet.hidden));
  $("sheetClose").addEventListener("click",()=>openSheet(false));
  $("sheetReset").addEventListener("click",()=>{
    enabled=MODULES.map(name=>name!=="visuals");
    order=DEFAULT_ORDER.slice(); widths=DEFAULT_WIDTHS.slice();
    targetLufs=DEFAULT_TARGET;
    applySettings(); save();
  });
  document.addEventListener("keydown",event=>{ if(event.key==="Escape") openSheet(false); });
  $("modelLoad").addEventListener("click",()=>{
    modelPath=$("modelPath").value.trim();
    $("modelStatus").textContent="Reading\u2026";
    post("msg model "+modelPath);
    save();
  });
  $("modelPath").addEventListener("keydown",event=>{
    if(event.key==="Enter") $("modelLoad").click();
  });

  readInk();
  applySettings();
  const resized=()=>{ invalidateCanvases(); requestDraw(); };
  window.addEventListener("resize",resized);
  if(typeof ResizeObserver==="function") new ResizeObserver(resized).observe(row);
  requestDraw();
})();
</script>
</body>
</html>"##;

} // verus!
