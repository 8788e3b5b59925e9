# shojiwm_backend

The logic of a Wayland compositor's display backend: when each output is redrawn, what a
frame consists of and in which order, which pictures of earlier frames are used again, and
what is left of damage once outputs have been rendered. It is written in Verus; every
function states what it does, and every statement is proved.

## Layout

- `src/` is the library.
  - Time and displays: `timing`, `modes`, `formats`.
  - Sessions: `redraw` (the state of one output), `session` (devices and outputs),
    `records` (what is kept of each output), `damage`.
  - Geometry: `geometry`, `region`, `visual`, `clip`.
  - Frames: `scene`, `order`, `layers`, `layerpass` (layer surfaces), `windows`, `pass`
    (windows), `effects`, `slots`, `placements` (effects around them), `frame`, `scanout`,
    `cursor`.
  - Pictures that are kept: `signature`, `cache`, `backdrop`, `behind`, `background`,
    `capture`.
  - Diagnostics: `notes`, `probes`.
  - Helpers: `table`, `text`.
- `app/` is ordinary Rust around it: the driver that runs devices, frames and timers, the
  loops that draw a frame, conversions from and to smithay's types, surfaces of clients as
  render elements, and all that needs floating point. The renderer's shaders, the
  decorations and the desktop are other parts of the compositor; `app/` reaches them
  through the traits `Compositor`, `Stage`, `LayerStage`, `FrameStage`, `CaptureStage` and
  `Painter`.
- `tests/` runs the library on concrete values.

## How the parts work together

Drawing happens outside the library, so what involves it comes in steps. A function decides
what is to be done, the caller does it, and another function records the result. Effects,
for example, are first decided on (`behind::shader_backdrop_step`); if a picture has to be
drawn, what came of that is recorded (`behind::settle_shader_backdrop`), and in
the next frame the picture is shown again as long as nothing it depends on has changed.

The elements of a frame are type parameters of the library: it never looks into them.
Elements that the renderer has to recognise from frame to frame have numbers, which the
caller provides.

Laws that span several functions are public proof functions named `law_..`.
