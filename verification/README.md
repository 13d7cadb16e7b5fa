# Flip Companion

Bottom-screen companion panel for the AYANEO Flip DS: an on-screen keyboard,
live stats, and a Wayland app next to them.

- `src/` is the library. It holds the decisions of the panel, written and proved
  in Verus: touch decoding and routing (`touch`), placing and clipping the
  client's surfaces (`layers`), the steps of the render loop (`render_loop`),
  launching and killing apps (`launch`), surviving a GPU reset (`abort_guard`),
  the output and its two buffers (`gpu_renderer`), brightness, keys and other
  state of the platform (`drm_platform`), pixels (`pixel`), configuration
  (`config`), colours (`theme`, `defaults`) and text (`text`).
- `tests/` runs the library on concrete values.
- `app/` is the program: windows, devices, processes and the GPU. It carries out
  what the library decides. What is floating point (the turn of touch
  coordinates, the gamma ramp, stats) is computed there.

The one thing that the proofs take on trust is how Slint decodes a colour, in
`theme::decode_color`.
