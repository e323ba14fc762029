//! A polyphonic synthesis core: a fixed voice pool, a control-event protocol
//! and a per-sample mixing loop, with every value held as a fixed-point integer.

pub mod event;
pub mod program;
pub mod voice;
pub mod index_list;
pub mod channel;
pub mod synth;
pub mod laws;
pub mod knob;
