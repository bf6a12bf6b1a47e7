// A line-oriented shell for a bare-metal machine: scancode decoding, a bounded
// line editor, a command dispatcher and a fixed-capacity text store.
pub mod command;
pub mod kernel;
pub mod keyboard;
pub mod probe;
pub mod shell;
pub mod store;
pub mod text;
