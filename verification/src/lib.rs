//! A verified CHIP-8 interpreter core: memory and register model, instruction
//! decode, and the semantics of every opcode, driven one fetch-decode-execute
//! cycle at a time. Windowing, audio and input mapping are the host's business;
//! this crate only owns the machine state and its transition rules.

pub mod chip8;

pub use chip8::Chip8;
pub use chip8::Chip8Error;
pub use chip8::Chip8Model;
pub use chip8::decode::decode;
pub use chip8::decode::Instruction;
