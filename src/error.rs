use vstd::prelude::*;

verus! {

/// A fault of the dispatch loop; each one ends the current run.
#[derive(Debug, PartialEq, Eq)]
pub enum VmError {
    /// An operation was applied to the wrong kind of value.
    TypeMismatch,
    /// A pop found the operand stack empty, or an invocation asked for more
    /// operands than the stack holds (a negative argument count included).
    StackUnderflow,
    /// A global lookup found nothing under the name carried here.
    UnboundGlobal(String),
    /// The target of an invocation is neither a module nor a builtin.
    NotCallable,
}

/// Why an artifact could not be loaded; every variant marks a malformed artifact.
#[derive(Debug, Clone, Copy, PartialEq, Eq, Structural)]
pub enum LoadError {
    /// The leading bytes are not the artifact's magic.
    BadMagic,
    /// The input ends inside a field.
    Truncated,
    /// A string length prefix is not a valid LEB128 number.
    BadLength,
    /// A string's bytes are not valid UTF-8.
    BadUtf8,
    /// An opcode byte outside the instruction set.
    UnknownOpcode(u8),
    /// A constant type tag that the loader does not build.
    UnknownConstant(u8),
}

} // verus!
