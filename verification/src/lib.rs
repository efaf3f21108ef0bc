//! A verified interpreter core for a small fixed-width virtual machine
//! instruction set: a state container with a fetch-decode-execute cycle over
//! the baseline set of 35 instruction encodings, plus an independently
//! clocked timer pair. Hosts drive it tick by tick and supply all I/O:
//! rendering the framebuffer, playing the sound signal, and feeding key
//! events.
//!
//! Every state transition of the machine is specified against a ghost model
//! of the state ([`model::Chip`]) and a total spec-level step function
//! ([`step::spec_tick`]), and the executable code is proved to follow it.
pub mod laws;
mod machine;
pub mod model;
pub mod step;

pub use machine::Hachi;
pub use step::spec_tick;
pub use step::spec_execute;
pub use step::known_opcode;
pub use model::fresh;
pub use model::dec;
pub use model::Chip;
pub use model::Fault;
pub use model::DISPLAY_HEIGHT;
pub use model::DISPLAY_WIDTH;
pub use model::FONT_SIZE;
pub use model::NUM_KEYS;
pub use model::NUM_REGISTERS;
pub use model::RAM_SIZE;
pub use model::STACK_SIZE;
pub use model::START_ADDRESS;
