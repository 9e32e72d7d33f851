# oscar

The verified core of an OSC-based DAW controller whose UI is drawn by Lua
scripts.

- `src/osc.rs`: OSC arguments, messages and packets as plain values (floats
  by their bit patterns); decoding received datagrams through rosc;
  flattening bundles; the messages that open a session with the DAW.
- `src/daw_control.rs`: track and playback controls, their OSC form, and the
  mirror of the DAW's state that incoming messages update, with the laws
  that relate them.
- `src/text.rs`: address splitting, decimal parsing and writing.
- `src/ui_script.rs`, `src/render.rs`, `src/input.rs`: what scripts record,
  how it becomes shapes, and how window input reaches the script.
- `app/`: the program around it: window and GPU painting (winit, wgpu,
  epaint), the Lua runtime (mlua), and the UDP session with the encoding of
  outgoing messages (rosc).
