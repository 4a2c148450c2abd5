//! The shader that draws every primitive of a scene.
use vstd::prelude::*;

verus! {

/// WGSL shared by the renderers. It contains no host-side state; the adapter
/// supplies instance data.
pub const PRIMITIVE_WGSL: &'static str = "
struct VertexOutput {
  @builtin(position) position: vec4<f32>,
  @location(0) color: vec4<f32>,
};

@vertex
fn vs_main(
  @builtin(vertex_index) vertex_index: u32,
  @location(0) a: vec2<f32>,
  @location(1) b: vec2<f32>,
  @location(2) c: vec2<f32>,
  @location(3) d: vec2<f32>,
  @location(4) color: vec4<f32>,
) -> VertexOutput {
  var position = a;
  switch vertex_index {
    case 0u: { position = a; }
    case 1u: { position = b; }
    case 2u: { position = c; }
    case 3u: { position = a; }
    case 4u: { position = c; }
    default: { position = d; }
  }
  var out: VertexOutput;
  out.position = vec4<f32>(position, 0.0, 1.0);
  out.color = color;
  return out;
}

@fragment
fn fs_main(in: VertexOutput) -> @location(0) vec4<f32> {
  return in.color;
}
";

} // verus!
