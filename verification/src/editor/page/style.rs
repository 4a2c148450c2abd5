//! The page's style.
use vstd::prelude::*;

verus! {

/// The shell, the rail and its panels.
pub const STYLE_SHELL: &'static str = r##"<!doctype html>
<html lang="en">
<head>
<meta charset="utf-8">
<meta name="viewport" content="width=device-width,initial-scale=1">
<style>
  :root {
    /* Midnight Kids: flat violet surfaces, hot pink labels, cyan data.
       Data may glow; chrome never pretends to be a texture. */
    --void:#171320; --panel:#211a2e; --well:#0f0c16;
    --line:#33273f; --edge:#463656;
    --pink:#ff3d8a; --pink-dim:#a2537f; --pink-faint:#5e3a52;
    --cyan:#5ddce9; --cyan-dim:#3a8a94;
    --amber:#ffc247; --red:#ff4d5e;
  }
  :root[data-theme="coal"] {
    --void:#16181b; --panel:#22262a; --well:#101214; --line:#394047; --edge:#515b64;
    --pink:#e78ab4; --pink-dim:#aa718b; --pink-faint:#65515d; --cyan:#82d8d0; --cyan-dim:#538f89;
    --amber:#d7b76d; --red:#e67575;
  }
  :root[data-theme="mono"] {
    --void:#171717; --panel:#242424; --well:#0d0d0d; --line:#444; --edge:#666;
    --pink:#d6d6d6; --pink-dim:#9a9a9a; --pink-faint:#666; --cyan:#f0f0f0; --cyan-dim:#aaa;
    --amber:#d5d5d5; --red:#fff;
  }
  * { box-sizing:border-box; }
  html,body { margin:0; width:100%; height:100%; background:var(--void); color:var(--pink); }
  body {
    font:12px/1.35 ui-monospace,"SF Mono",Menlo,Consolas,monospace;
    -webkit-font-smoothing:antialiased;
    user-select:none; -webkit-user-select:none;
    overflow:hidden;
  }
  button { font:inherit; color:inherit; background:none; border:0; padding:0; cursor:pointer; }
  :focus-visible { outline:1px solid var(--cyan); outline-offset:2px; }

  .shell {
    height:100%; min-width:0; min-height:0; padding:10px; display:grid; gap:8px;
    grid-template-rows:auto minmax(0,1fr) auto;
    background:var(--void);
  }
  /* The rail keeps a floor while the drawer is open, so opening settings
     shrinks the meters instead of squeezing them out of existence. */
  .shell.tuning { grid-template-rows:auto minmax(74px,1fr) minmax(0,auto) auto; }

  /* ---- header ---- */
  .top { display:flex; align-items:center; gap:12px; height:26px; min-width:0; }
  .brand { font-size:19px; font-weight:700; letter-spacing:.34em; color:var(--pink); }
  .brand i { font-style:normal; color:var(--cyan); }
  .rule { flex:1; height:1px; background:var(--line); }
  .headline { font-size:11px; letter-spacing:.1em; color:var(--pink-dim); white-space:nowrap; }
  .headline b { color:var(--cyan); font-weight:400; }
  .gear {
    padding:3px 10px; font-size:10px; letter-spacing:.12em; text-transform:uppercase;
    color:var(--pink); border:1px solid var(--line); background:var(--panel);
  }
  .gear:hover, .gear[aria-expanded="true"] { background:var(--cyan); color:var(--void); border-color:var(--cyan); }
  .actions { display:flex; align-items:center; gap:4px; }
  .action { padding:3px 7px; border:1px solid var(--line); background:var(--panel); font-size:9px;
            letter-spacing:.08em; text-transform:uppercase; }
  .action:hover { border-color:var(--cyan); color:var(--cyan); }

  /* ---- resizable instrument rail ------------------------------------- */
  .row { display:flex; min-width:0; min-height:0; overflow:hidden; }
  .box {
    flex:1 1 0; min-width:74px; min-height:0; position:relative; overflow:hidden;
    border:1px solid var(--line); background:var(--panel);
    display:grid; grid-template-rows:auto minmax(0,1fr) auto;
  }
  .box[hidden] { display:none; }
  .cap {
    padding:5px 7px; border-bottom:1px solid var(--line);
    font-size:9px; letter-spacing:.14em; text-transform:uppercase; color:var(--pink-dim);
    display:flex; justify-content:space-between; gap:5px; white-space:nowrap; overflow:hidden;
  }
  .cap b { color:var(--pink); font-weight:400; }
  /* `flex:1` so the subtitle is what gives way when the cross needs room, and
     right-aligned so the header still reads title-left, detail-right. */
  .cap span { flex:1; min-width:0; text-align:right; color:var(--pink-faint);
              overflow:hidden; text-overflow:ellipsis; }
  /* The header is the panel's handle. Reordering and hiding are the two things
     people do to a rail constantly, and walking to a settings tab for either is
     a trip a meter should not ask for. */
  .cap { cursor:grab; touch-action:none; }
  .cap.dragging { cursor:grabbing; background:var(--well); color:var(--cyan); }
  .box.carrying { opacity:.5; }
  /* Insertion mark, drawn on the panel the drop would land in front of. A live
     reorder is not possible here: `layout` empties the rail to rebuild it,
     which would release the pointer capture mid-drag. */
  .box[data-drop="before"] { box-shadow:inset 3px 0 0 var(--cyan); }
  .box[data-drop="after"] { box-shadow:inset -3px 0 0 var(--cyan); }
  .capHide {
    flex:0 0 auto; width:15px; height:14px; margin:-2px -3px -2px 0;
    display:grid; place-items:center; font-size:13px; line-height:1;
    color:var(--pink-faint); border:1px solid transparent;
  }
  .capHide:hover { color:var(--red); border-color:var(--line); }
  .capHide:disabled { opacity:.25; cursor:default; }
  .note { padding:4px 7px; border-top:1px solid var(--line); font-size:9px;
          letter-spacing:.06em; color:var(--pink-faint); min-height:20px;
          overflow:hidden; text-overflow:ellipsis; white-space:nowrap; }
  canvas { display:block; width:100%; height:100%; min-height:0; background:var(--well); }

  .box[data-module="object"] canvas { cursor:grab; touch-action:none; }
  .box[data-module="object"] canvas.dragging { cursor:grabbing; }

  /* ---- bare chrome ------------------------------------------------------
     A rail of bordered cards reads as eight plugins that happen to be adjacent.
     Stripping the borders, the panel fill and the caption bars leaves one
     continuous field, which is what makes a meter bridge read as one
     instrument. Every panel already draws its own axes into its own canvas, so
     nothing was being carried by the furniture except the module's name - and
     that comes back under the pointer, where it is needed and nowhere else. */
  .shell[data-chrome="bare"] .row {
    border:1px solid var(--line); background:var(--well);
  }
  .shell[data-chrome="bare"] .box {
    border:0; background:transparent;
    grid-template-rows:minmax(0,1fr);
  }
  /* Out of flow, so the canvas gets the whole panel rather than the leftovers.
     `pointer-events` follows the reveal: a transparent caption sitting over the
     top of every canvas would eat the hover readout and the object's orbit. */
  .shell[data-chrome="bare"] .cap,
  .shell[data-chrome="bare"] .note {
    position:absolute; left:0; right:0; z-index:2;
    border:0; opacity:0; pointer-events:none; transition:opacity .12s;
  }
  .shell[data-chrome="bare"] .cap {
    top:0; background:linear-gradient(var(--void) 60%,rgba(0,0,0,0));
    padding-bottom:9px;
  }
  .shell[data-chrome="bare"] .note {
    bottom:0; background:linear-gradient(rgba(0,0,0,0),var(--void) 40%);
    padding-top:9px;
  }
  .shell[data-chrome="bare"] .box:hover .cap,
  .shell[data-chrome="bare"] .box:hover .note,
  .shell[data-chrome="bare"] .box:focus-within .cap,
  .shell[data-chrome="bare"] .cap.dragging {
    opacity:1; pointer-events:auto;
  }
  /* Hairline separators, so the panels almost touch. */
  .shell[data-chrome="bare"] .grip { flex:0 0 5px; }
  .shell[data-chrome="bare"] .grip::after { inset:0 2px; background:var(--void); }
"##;

/// The settings drawer, the tip and the narrow windows.
pub const STYLE_SETTINGS: &'static str = r##"  .shell[data-chrome="bare"] .foot { border-color:var(--line); background:var(--well); }
  .shell[data-chrome="bare"] .cell { border-right-color:var(--line); }

  /* Bigger hit target than its visible one-pixel divider. */
  .grip {
    flex:0 0 8px; cursor:col-resize; position:relative; touch-action:none;
    background:transparent;
  }
  .grip::after {
    content:""; position:absolute; inset:14px 3px; background:var(--line);
  }
  .grip:hover::after, .grip.dragging::after { background:var(--cyan); }

  /* ---- footer ---- */
  .foot { display:grid; grid-auto-flow:column; grid-auto-columns:1fr;
          border:1px solid var(--line); background:var(--panel); }
  .cell { padding:5px 9px; border-right:1px solid var(--line); min-width:0; }
  .cell:last-child { border-right:none; }
  .cell label { display:block; font-size:8.5px; letter-spacing:.14em;
                text-transform:uppercase; color:var(--pink-faint); }
  .cell output { display:block; margin-top:1px; font-size:15px; color:var(--cyan);
                 font-variant-numeric:tabular-nums; }
  .cell output.pending { color:var(--pink-faint); font-size:10px; letter-spacing:.1em; }
  .cell output.hot { color:var(--red); }
  .cell output em { font-style:normal; font-size:9px; color:var(--pink-dim); margin-left:3px; }

  /* Pointer readout. Fixed, never inside a panel: a tooltip clipped by the
     box it belongs to is a tooltip you cannot read at the edges. */
  .tip {
    position:fixed; z-index:6; pointer-events:none;
    padding:4px 8px; font-size:10px; line-height:1.45; letter-spacing:.04em;
    white-space:pre; color:var(--cyan);
    background:var(--void); border:1px solid var(--edge);
  }
  .tip b { color:var(--pink); font-weight:400; }
  .tip[hidden] { display:none; }

  /* ---- settings drawer -------------------------------------------------
     A drawer inside the shell's own grid, not an overlay. Settings that cover
     the meters make you close them to check what the change did, and a full
     screen of stacked cards makes you fullscreen a plugin window to reach the
     last one. This slides in under the rail: the meters shrink, stay live, and
     the drawer's content runs sideways in as many columns as the width gives.
     Tabs are what keep it short - a group that would stack downwards becomes a
     tab instead. */
  .sheet {
    min-width:0; min-height:0;
    display:grid; grid-template-rows:auto minmax(0,1fr);
    border:1px solid var(--line); background:var(--panel);
    max-height:min(56vh,320px);
  }
  .sheet[hidden] { display:none; }

  .tabs {
    display:flex; flex-wrap:wrap; align-items:center; gap:4px;
    padding:5px 6px; border-bottom:1px solid var(--line); background:var(--void);
  }
  .tab {
    padding:3px 10px; font-size:10px; letter-spacing:.12em; text-transform:uppercase;
    color:var(--pink-dim); border:1px solid transparent;
  }
  .tab:hover { color:var(--cyan); }
  .tab[aria-selected="true"] {
    color:var(--void); background:var(--pink); border-color:var(--pink);
  }
  .tabSpace { flex:1; min-width:8px; }

  .pages { min-height:0; overflow:auto; overscroll-behavior:contain; padding:9px; }
  .page { display:none; }
  .page[data-active="true"] {
    display:grid; gap:9px; align-items:start;
    /* auto-fit is the whole point: one more column every time the window gets
       wider, instead of a fixed count that stacks when it does not fit. */
    grid-template-columns:repeat(auto-fit,minmax(196px,1fr));
  }
  .page .wide { grid-column:span 2; }
  @media (max-width:640px) { .page .wide { grid-column:span 1; } }

  .group { min-width:0; border:1px solid var(--line); background:var(--well); padding:8px 10px 10px; }
  .group h2 { margin:0 0 8px; font-size:9.5px; font-weight:400;
              letter-spacing:.18em; text-transform:uppercase; color:var(--pink-dim); }
  .chips { display:flex; flex-wrap:wrap; gap:5px; }
  .chip {
    padding:3px 9px; font-size:11px; letter-spacing:.04em;
    color:var(--pink); border:1px solid var(--line); background:var(--panel);
  }
  .chip[aria-pressed="true"] { background:var(--cyan); color:var(--void); border-color:var(--cyan); }
  .chip:hover { border-color:var(--cyan); }
  .field { display:flex; gap:6px; margin-top:2px; }
  .field input {
    flex:1; min-width:0; font:inherit; font-size:11px; padding:4px 7px;
    color:var(--cyan); background:var(--panel); border:1px solid var(--line);
    user-select:text; -webkit-user-select:text;
  }
  .field input:focus { outline:none; border-color:var(--cyan); }
  .go { padding:4px 12px; font-size:11px; color:var(--void); background:var(--pink); }
  .go:hover { background:var(--cyan); }
  .hint { margin:7px 0 0; font-size:10px; line-height:1.45; color:var(--pink-faint); }
  .hint b { color:var(--pink-dim); font-weight:400; }
  .controlLabel { margin:7px 0 4px; font-size:9px; letter-spacing:.1em; text-transform:uppercase; color:var(--pink-faint); }
  .controlLabel:first-child { margin-top:0; }
  .tune { display:grid; grid-template-columns:1fr auto; gap:5px 8px; align-items:center; margin-top:7px; }
  .tune label { color:var(--pink-dim); font-size:10px; }
  .tune input { width:82px; accent-color:var(--cyan); }
  .reset { padding:3px 10px; font-size:10px; letter-spacing:.1em; text-transform:uppercase;
           color:var(--pink); border:1px solid var(--line); }
  .reset:hover { border-color:var(--cyan); color:var(--cyan); }
  .close { padding:3px 12px; font-size:10px; letter-spacing:.1em; text-transform:uppercase;
           color:var(--void); background:var(--cyan); }

  @media (max-height:560px) {
    .sheet { max-height:min(62vh,260px); }
    .pages { padding:7px; }
    .group { padding:7px 8px 8px; }
    .group h2 { margin-bottom:6px; }
    .controlLabel { margin:5px 0 3px; }
    .hint { margin-top:5px; }
  }
  /* Below this there is no height left to share. Giving the drawer the rail's
     space beats clipping both, and the readouts in the footer stay put. */
  @media (max-height:400px) {
    .shell.tuning .row { display:none; }
    .sheet { max-height:none; }
  }

  @media (max-width:960px) {
    .shell { padding:8px; gap:6px; }
    .top { gap:8px; }
    .headline { min-width:0; overflow:hidden; text-overflow:ellipsis; }
    .cap { padding:5px 6px; letter-spacing:.08em; }
    .cell { padding:5px 4px; overflow:hidden; }
    .cell label { font-size:7px; letter-spacing:.04em; overflow:hidden; text-overflow:ellipsis; white-space:nowrap; }
    .cell output { font-size:12px; overflow:hidden; text-overflow:ellipsis; white-space:nowrap; }
    .cell output em { display:none; }
  }
  @media (max-height:360px) {
    .shell { padding:6px; gap:5px; }
    .top { height:22px; }
    .brand { font-size:14px; }
    .headline { font-size:8px; }
    .cap { padding:4px 5px; font-size:8px; }
    .foot .cell { padding:3px 4px; }
    .foot .cell label { font-size:7px; }
    .foot .cell output { font-size:11px; }
  }
"##;

} // verus!
