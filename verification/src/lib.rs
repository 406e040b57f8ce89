//! A deterministic single-tape Turing machine.
//!
//! A rule table maps the symbol under the head and the current state to a
//! symbol to write, a direction to move and a state to enter. The machine
//! applies it step by step to a tape that is blank wherever nothing was
//! written, grows at either end as the head or a write needs it, and keeps
//! every state it went through.
//!
//! Each type has a mathematical view, and the contracts of the executable
//! functions are stated over these views: `Tape` is seen as a `TapeView`,
//! `Turing` as a `TuringView`. What holds of every tape and every run is
//! proved as `law_..` functions beside the model that it speaks of.

pub mod chance;
pub mod data_structs;
pub mod printing;
pub mod text;
pub mod turing_machine;
pub mod turing_tape;
