use std::sync::Arc;
use vstd::prelude::*;

use crate::error::VmError;
use crate::object::{share, AttributeDictionary, Instruction, IodineObject};

verus! {

/// The record of one invocation: its operand stack, its locals, the code it
/// runs and the position of the next instruction in that code.
pub struct StackFrame {
    pub stack: Vec<Arc<IodineObject>>,
    pub locals: AttributeDictionary,
    pub instruction_pointer: usize,
    pub code: Arc<IodineObject>,
}

/// The instructions of a code value; empty for any other value.
pub open spec fn code_instructions(code: IodineObject) -> Seq<Instruction> {
    match code {
        IodineObject::CodeObject { instructions, .. } => instructions@,
        _ => Seq::empty(),
    }
}

/// `f` is a frame that has not started: empty stack, no locals, at the first
/// instruction of `code`.
pub open spec fn fresh_frame_of(f: StackFrame, code: Arc<IodineObject>) -> bool {
    &&& f.stack@ == Seq::<Arc<IodineObject>>::empty()
    &&& f.locals.wf()
    &&& f.locals@ == Map::<Seq<char>, Arc<IodineObject>>::empty()
    &&& f.instruction_pointer == 0
    &&& f.code == code
}

/// `after` is `before` moved to position `ip` with operand stack `stack`.
pub open spec fn frame_moved(after: StackFrame, before: StackFrame, ip: nat, stack: Seq<Arc<IodineObject>>) -> bool {
    &&& after.stack@ == stack
    &&& after.instruction_pointer == ip
    &&& after.locals == before.locals
    &&& after.code == before.code
}

impl StackFrame {
    /// The frame runs a code value and stands within it.
    pub open spec fn wf(&self) -> bool {
        &&& *self.code is CodeObject
        &&& self.instruction_pointer <= code_instructions(*self.code).len()
        &&& self.locals.wf()
    }

    /// A frame that runs `code` from its first instruction, with an empty
    /// stack and no locals.
    pub fn new(code: Arc<IodineObject>) -> (r: StackFrame)
        ensures
            fresh_frame_of(r, code),
            *code is CodeObject ==> r.wf(),
    {
        StackFrame {
            stack: Vec::new(),
            locals: AttributeDictionary::new(),
            instruction_pointer: 0,
            code,
        }
    }

    /// Pushes `obj`, or `null` when `obj` is absent.
    pub fn push(&mut self, obj: Option<Arc<IodineObject>>, null: &Arc<IodineObject>)
        ensures
            final(self).stack@ == old(self).stack@.push(
                match obj {
                    Some(v) => v,
                    None => *null,
                },
            ),
            final(self).locals == old(self).locals,
            final(self).instruction_pointer == old(self).instruction_pointer,
            final(self).code == old(self).code,
    {
        let push_obj = match obj {
            Some(v) => v,
            None => share(null),
        };
        self.stack.push(push_obj);
    }

    /// Removes and returns the top of the operand stack.
    pub fn pop(&mut self) -> (r: Result<Arc<IodineObject>, VmError>)
        ensures
            r is Ok <==> old(self).stack@.len() > 0,
            r matches Ok(v) ==> v == old(self).stack@.last() && final(self).stack@
                == old(self).stack@.drop_last(),
            r matches Err(e) ==> e == VmError::StackUnderflow && final(self).stack@ == old(self).stack@,
            final(self).locals == old(self).locals,
            final(self).instruction_pointer == old(self).instruction_pointer,
            final(self).code == old(self).code,
    {
        match self.stack.pop() {
            Some(v) => Ok(v),
            None => Err(VmError::StackUnderflow),
        }
    }
}

} // verus!
