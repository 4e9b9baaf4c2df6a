//! A stack-based bytecode virtual machine: the value model, call frames,
//! the dispatch loop, and the loader of the compiled artifact format.

pub mod error;
pub mod iodine_context;
pub mod iodine_types;
pub mod loader;
pub mod object;
pub mod opcode;
pub mod stack_frame;
pub mod virtual_machine;

pub use error::{LoadError, VmError};
pub use object::{AttributeDictionary, Instruction, IodineObject};
