//! A verified core for an OSC-based DAW controller: the OSC message model,
//! the mapping between control requests and OSC messages, the mirror of the
//! DAW's state that incoming messages keep up to date, and the draw-command
//! model that UI scripts fill.
pub mod daw_control;
pub mod input;
pub mod osc;
pub mod render;
pub mod text;
pub mod ui_script;
