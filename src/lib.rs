//! Codec for command-grammar messages: a compact binary wire frame and a
//! line-oriented assembly text for the same frame, with a timestamped
//! variant for scripted playback.

pub mod address;
pub mod assembly;
pub mod frame;
pub mod hexdump;
pub mod literal;
pub mod message;
pub mod number;
pub mod opcode;
pub mod scripted;
pub mod text;
pub mod width;

pub use address::{address_byte_from_string, into_address_byte, split_address_byte};
pub use assembly::asm_words;
pub use frame::UCGMessageInternal;
pub use hexdump::hexlify;
pub use message::UCGMessage;
pub use opcode::MAX_OPCODE;
pub use scripted::UCGScriptedMessageInternal;
pub use width::determine_integer_size;
