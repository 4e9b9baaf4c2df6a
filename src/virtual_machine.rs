use std::sync::Arc;
use vstd::prelude::*;

use crate::error::VmError;
use crate::iodine_context::IodineContext;
use crate::iodine_types::{is_type_registry, type_registry};
use crate::object::{is_null_value, share, AttributeDictionary, Instruction, IodineObject};
use crate::opcode::Opcode;
use crate::stack_frame::{code_instructions, fresh_frame_of, frame_moved, StackFrame};

verus! {

/// A fault as the contracts speak of it.
pub enum Fault {
    TypeMismatch,
    StackUnderflow,
    UnboundGlobal(Seq<char>),
    NotCallable,
}

impl VmError {
    pub open spec fn view(&self) -> Fault {
        match self {
            VmError::TypeMismatch => Fault::TypeMismatch,
            VmError::StackUnderflow => Fault::StackUnderflow,
            VmError::UnboundGlobal(name) => Fault::UnboundGlobal(name@),
            VmError::NotCallable => Fault::NotCallable,
        }
    }
}

/// What one instruction does to the operand stack.
pub enum InstrStep {
    /// Go on with this stack.
    Next(Seq<Arc<IodineObject>>),
    /// Invoke `callee` with `args`, leaving the stack as given.
    Call(Seq<Arc<IodineObject>>, Arc<IodineObject>, Seq<Arc<IodineObject>>),
    /// Stop with a fault.
    Fail(Fault),
}

/// How a run of a frame ends.
pub enum FrameEnd {
    /// The code is exhausted.
    Completed,
    /// An `Invoke` popped its callee and arguments.
    Call(Arc<IodineObject>, Seq<Arc<IodineObject>>),
    /// An instruction faulted.
    Fail(Fault),
}

/// Where a run of a frame stops and with what stack.
pub struct FrameRun {
    pub ip: nat,
    pub stack: Seq<Arc<IodineObject>>,
    pub end: FrameEnd,
}

/// The value actually pushed for `v`: every null becomes the machine's null.
pub open spec fn interned(v: Arc<IodineObject>, null: Arc<IodineObject>) -> Arc<IodineObject> {
    if *v is IodineNull {
        null
    } else {
        v
    }
}

/// The effect of executing `ins` on `stack`.
pub open spec fn step_instr(
    ins: Instruction,
    stack: Seq<Arc<IodineObject>>,
    globals: Map<Seq<char>, Arc<IodineObject>>,
    null: Arc<IodineObject>,
) -> InstrStep {
    match ins.opcode {
        Opcode::Nop => InstrStep::Next(stack),
        Opcode::Pop => if stack.len() == 0 {
            InstrStep::Fail(Fault::StackUnderflow)
        } else {
            InstrStep::Next(stack.drop_last())
        },
        Opcode::LoadConst => InstrStep::Next(stack.push(interned(ins.object, null))),
        Opcode::LoadGlobal => match *ins.object {
            IodineObject::IodineName { value, .. } => if globals.contains_key(value@) {
                InstrStep::Next(stack.push(interned(globals[value@], null)))
            } else {
                InstrStep::Fail(Fault::UnboundGlobal(value@))
            },
            _ => InstrStep::Fail(Fault::TypeMismatch),
        },
        Opcode::Invoke => {
            let k = ins.argument as int;
            if k < 0 || stack.len() < k + 1 {
                InstrStep::Fail(Fault::StackUnderflow)
            } else {
                let base = stack.len() - 1 - k;
                InstrStep::Call(
                    stack.subrange(0, base),
                    stack.last(),
                    stack.subrange(base, stack.len() - 1),
                )
            }
        },
    }
}

/// Runs `code` from `ip` on `stack` until the code is exhausted, an `Invoke`
/// is reached, or an instruction faults. The position is advanced past each
/// instruction before it takes effect.
pub open spec fn run_frame(
    code: Seq<Instruction>,
    ip: nat,
    stack: Seq<Arc<IodineObject>>,
    globals: Map<Seq<char>, Arc<IodineObject>>,
    null: Arc<IodineObject>,
) -> FrameRun
    decreases code.len() - ip,
{
    if ip >= code.len() {
        FrameRun { ip, stack, end: FrameEnd::Completed }
    } else {
        match step_instr(code[ip as int], stack, globals, null) {
            InstrStep::Next(s) => run_frame(code, ip + 1, s, globals, null),
            InstrStep::Call(s, callee, args) => FrameRun {
                ip: ip + 1,
                stack: s,
                end: FrameEnd::Call(callee, args),
            },
            InstrStep::Fail(f) => FrameRun { ip: ip + 1, stack, end: FrameEnd::Fail(f) },
        }
    }
}

/// How `eval_code` hands control back.
pub enum Eval {
    /// The code is exhausted; the frame's return value.
    Completed(Arc<IodineObject>),
    /// An `Invoke` popped `callee` and its arguments, first-pushed first.
    Invoke { callee: Arc<IodineObject>, args: Vec<Arc<IodineObject>> },
    /// An instruction faulted.
    Fault(VmError),
}

/// What `invoke` started.
pub enum Dispatch {
    /// A frame for the module's code is now active.
    Entered,
    /// The host must run this builtin on these arguments, then hand its
    /// result to `complete_builtin`.
    Builtin { callee: Arc<IodineObject>, args: Vec<Arc<IodineObject>> },
}

/// What one call of `resume` led to.
pub enum VmEvent {
    /// The machine moved on; call `resume` again.
    Running,
    /// The host must run this builtin on these arguments, then hand its
    /// result to `complete_builtin`.
    CallBuiltin { callee: Arc<IodineObject>, args: Vec<Arc<IodineObject>> },
    /// The outermost frame completed with this value; no frame is left.
    Finished(Arc<IodineObject>),
    /// The run faulted.
    Faulted(VmError),
}

/// The machine: its call stack and its global context.
pub struct VirtualMachine {
    pub frames: Vec<StackFrame>,
    pub stack_size: usize,
    pub frame_count: usize,
    pub context: IodineContext,
    pub null: Arc<IodineObject>,
    pub types: Vec<(String, AttributeDictionary)>,
}

/// The value `v` with every null replaced by `null`.
fn intern(v: Arc<IodineObject>, null: &Arc<IodineObject>) -> (r: Arc<IodineObject>)
    ensures
        r == interned(v, *null),
{
    match &*v {
        IodineObject::IodineNull { .. } => share(null),
        _ => v,
    }
}

impl VirtualMachine {
    /// The counters mirror the call stack, every frame is well formed, the
    /// globals are keyed uniquely, the null is canonical and the type
    /// registry is complete.
    pub open spec fn wf(&self) -> bool {
        &&& self.stack_size == self.frames@.len()
        &&& self.frame_count == self.frames@.len()
        &&& forall|i: int| 0 <= i < self.frames@.len() ==> (#[trigger] self.frames@[i]).wf()
        &&& self.context.globals.wf()
        &&& is_null_value(*self.null)
        &&& is_type_registry(self.types@)
    }

    /// The globals as a map.
    pub open spec fn globals(&self) -> Map<Seq<char>, Arc<IodineObject>> {
        self.context.globals@
    }

    /// A machine with no frame, the given globals, a fresh null and the
    /// type registry.
    pub fn new(globals: AttributeDictionary) -> (r: VirtualMachine)
        requires
            globals.wf(),
        ensures
            r.wf(),
            r.frames@.len() == 0,
            r.context.globals == globals,
    {
        VirtualMachine {
            frames: Vec::new(),
            stack_size: 0,
            frame_count: 0,
            context: IodineContext { globals },
            null: Arc::new(IodineObject::null()),
            types: type_registry(),
        }
    }

    /// Makes `frame` the active frame.
    pub fn new_frame(&mut self, frame: StackFrame)
        requires
            old(self).wf(),
            frame.wf(),
            old(self).frames@.len() < usize::MAX,
        ensures
            final(self).wf(),
            final(self).frames@ == old(self).frames@.push(frame),
            final(self).context == old(self).context,
            final(self).null == old(self).null,
    {
        self.frame_count = self.frame_count + 1;
        self.stack_size = self.stack_size + 1;
        self.frames.push(frame);
    }

    /// Removes the active frame and returns it; `None` when there is none.
    pub fn end_frame(&mut self) -> (r: Option<StackFrame>)
        requires
            old(self).wf(),
        ensures
            final(self).wf(),
            old(self).frames@.len() == 0 ==> r is None && final(self).frames@ == old(self).frames@,
            old(self).frames@.len() > 0 ==> r == Some(old(self).frames@.last())
                && final(self).frames@ == old(self).frames@.drop_last(),
            final(self).context == old(self).context,
            final(self).null == old(self).null,
    {
        if self.frames.len() == 0 {
            return None;
        }
        self.frame_count = self.frame_count - 1;
        self.stack_size = self.stack_size - 1;
        self.frames.pop()
    }
}

/// The outcome of a frame run, as `eval_code` reports it.
pub open spec fn eval_matches(r: Eval, end: FrameEnd, null: Arc<IodineObject>) -> bool {
    match end {
        FrameEnd::Completed => r matches Eval::Completed(v) && v == null,
        FrameEnd::Call(callee, args) => r matches Eval::Invoke { callee: c, args: a } && c == callee
            && a@ == args,
        FrameEnd::Fail(f) => r matches Eval::Fault(e) && e@ == f,
    }
}

/// Runs the instructions of `frame` from its position, as `run_frame` says.
fn exec_frame(
    frame: &mut StackFrame,
    instructions: &Vec<Instruction>,
    globals: &AttributeDictionary,
    null: &Arc<IodineObject>,
) -> (r: Eval)
    requires
        old(frame).instruction_pointer <= instructions@.len(),
        globals.wf(),
    ensures
        ({
            let run = run_frame(
                instructions@,
                old(frame).instruction_pointer as nat,
                old(frame).stack@,
                globals@,
                *null,
            );
            &&& frame_moved(*final(frame), *old(frame), run.ip, run.stack)
            &&& eval_matches(r, run.end, *null)
        }),
        final(frame).instruction_pointer <= instructions@.len(),
{
    let ghost goal = run_frame(
        instructions@,
        frame.instruction_pointer as nat,
        frame.stack@,
        globals@,
        *null,
    );
    let ghost start = *frame;
    while frame.instruction_pointer < instructions.len()
        invariant
            frame.instruction_pointer <= instructions@.len(),
            run_frame(
                instructions@,
                frame.instruction_pointer as nat,
                frame.stack@,
                globals@,
                *null,
            ) == goal,
            goal == run_frame(
                instructions@,
                old(frame).instruction_pointer as nat,
                old(frame).stack@,
                globals@,
                *null,
            ),
            start == *old(frame),
            frame.locals == start.locals,
            frame.code == start.code,
            globals.wf(),
        decreases instructions@.len() - frame.instruction_pointer,
    {
        let ip = frame.instruction_pointer;
        let instruction = &instructions[ip];
        frame.instruction_pointer = ip + 1;
        match instruction.opcode {
            Opcode::Nop => {},
            Opcode::Pop => {
                if frame.stack.pop().is_none() {
                    return Eval::Fault(VmError::StackUnderflow);
                }
            },
            Opcode::LoadConst => {
                frame.stack.push(intern(share(&instruction.object), null));
            },
            Opcode::LoadGlobal => {
                match instruction.get_string() {
                    Ok(name) => {
                        match globals.get(&name) {
                            Some(v) => {
                                frame.stack.push(intern(v, null));
                            },
                            None => {
                                return Eval::Fault(VmError::UnboundGlobal(name));
                            },
                        }
                    },
                    Err(e) => {
                        return Eval::Fault(e);
                    },
                }
            },
            Opcode::Invoke => {
                let k = instruction.argument;
                if k < 0 || k as usize >= frame.stack.len() {
                    return Eval::Fault(VmError::StackUnderflow);
                }
                let ghost before = frame.stack@;
                let callee = match frame.stack.pop() {
                    Some(c) => c,
                    None => {
                        return Eval::Fault(VmError::StackUnderflow);
                    },
                };
                let base = frame.stack.len() - k as usize;
                let args = frame.stack.split_off(base);
                assert(frame.stack@ =~= before.subrange(0, base as int));
                assert(args@ =~= before.subrange(base as int, before.len() - 1));
                return Eval::Invoke { callee, args };
            },
        }
    }
    Eval::Completed(share(null))
}

impl VirtualMachine {
    /// Runs the active frame's code from its position until the code is
    /// exhausted (the frame stays; its return value is the null), an
    /// `Invoke` has popped its callee and arguments, or an instruction
    /// faults. Frames below the active one are not touched.
    pub fn eval_code(&mut self) -> (r: Eval)
        requires
            old(self).wf(),
            old(self).frames@.len() > 0,
        ensures
            final(self).wf(),
            final(self).context == old(self).context,
            final(self).null == old(self).null,
            final(self).frames@.len() == old(self).frames@.len(),
            forall|i: int|
                0 <= i < old(self).frames@.len() - 1 ==> final(self).frames@[i] == old(self).frames@[i],
            ({
                let f = old(self).frames@.last();
                let run = run_frame(
                    code_instructions(*f.code),
                    f.instruction_pointer as nat,
                    f.stack@,
                    old(self).globals(),
                    old(self).null,
                );
                &&& frame_moved(final(self).frames@.last(), f, run.ip, run.stack)
                &&& eval_matches(r, run.end, old(self).null)
            }),
    {
        let top = self.frames.len() - 1;
        let code = share(&self.frames[top].code);
        let ghost old_frames = self.frames@;
        assert(old_frames[top as int].wf());
        match &*code {
            IodineObject::CodeObject { instructions, .. } => {
                let mut frame = match self.frames.pop() {
                    Some(f) => f,
                    None => {
                        return Eval::Completed(share(&self.null));
                    },
                };
                let r = exec_frame(&mut frame, instructions, &self.context.globals, &self.null);
                self.frames.push(frame);
                proof {
                    assert forall|i: int| 0 <= i < self.frames@.len() implies (
                    #[trigger] self.frames@[i]).wf() by {
                        if i < top {
                            assert(self.frames@[i] == old_frames[i]);
                        }
                    }
                }
                r
            },
            _ => {
                proof {
                    assert(false);
                }
                Eval::Fault(VmError::TypeMismatch)
            },
        }
    }
}

/// The first `n` frames of `after` are those of `before`.
pub open spec fn frames_kept(after: Seq<StackFrame>, before: Seq<StackFrame>, n: int) -> bool {
    forall|i: int| 0 <= i < n ==> #[trigger] after[i] == before[i]
}

/// The frames after `invoke` of `target`, and its result.
pub open spec fn invoke_matches(
    r: Result<Dispatch, VmError>,
    target: Arc<IodineObject>,
    args: Seq<Arc<IodineObject>>,
    after: Seq<StackFrame>,
    before: Seq<StackFrame>,
) -> bool {
    match *target {
        IodineObject::IodineModule { code, .. } => if *code is CodeObject {
            &&& r matches Ok(Dispatch::Entered)
            &&& after.len() == before.len() + 1
            &&& frames_kept(after, before, before.len() as int)
            &&& fresh_frame_of(after.last(), code)
        } else {
            &&& r matches Err(e) && e == VmError::TypeMismatch
            &&& after == before
        },
        IodineObject::BuiltinMethodCallback { .. } => {
            &&& r matches Ok(Dispatch::Builtin { callee, args: a }) && callee == target && a@
                == args
            &&& after == before
        },
        _ => {
            &&& r matches Err(e) && e == VmError::NotCallable
            &&& after == before
        },
    }
}

impl VirtualMachine {
    /// Calls `target` with `arguments`. A module gets a fresh frame that
    /// runs its code, and becomes the active frame; a builtin is handed back
    /// to the host, which runs it; any other value is not callable.
    pub fn invoke(&mut self, target: Arc<IodineObject>, arguments: Vec<Arc<IodineObject>>) -> (r:
        Result<Dispatch, VmError>)
        requires
            old(self).wf(),
            old(self).frames@.len() < usize::MAX,
        ensures
            final(self).wf(),
            final(self).context == old(self).context,
            final(self).null == old(self).null,
            invoke_matches(r, target, arguments@, final(self).frames@, old(self).frames@),
    {
        let is_builtin = match &*target {
            IodineObject::BuiltinMethodCallback { .. } => true,
            _ => false,
        };
        if is_builtin {
            return Ok(Dispatch::Builtin { callee: target, args: arguments });
        }
        match &*target {
            IodineObject::IodineModule { code, .. } => {
                match &**code {
                    IodineObject::CodeObject { .. } => {},
                    _ => {
                        return Err(VmError::TypeMismatch);
                    },
                }
                let frame = StackFrame::new(share(code));
                self.new_frame(frame);
                Ok(Dispatch::Entered)
            },
            _ => Err(VmError::NotCallable),
        }
    }

    /// Pushes what a builtin returned onto the active frame; a builtin that
    /// returned nothing pushes nothing. Every null pushed is the machine's null.
    pub fn complete_builtin(&mut self, ret: Option<Arc<IodineObject>>)
        requires
            old(self).wf(),
        ensures
            final(self).wf(),
            final(self).context == old(self).context,
            final(self).null == old(self).null,
            final(self).frames@.len() == old(self).frames@.len(),
            frames_kept(final(self).frames@, old(self).frames@, old(self).frames@.len() - 1),
            ret is None || old(self).frames@.len() == 0 ==> final(self).frames@ == old(self).frames@,
            old(self).frames@.len() > 0 ==> (ret matches Some(v) ==> frame_moved(
                final(self).frames@.last(),
                old(self).frames@.last(),
                old(self).frames@.last().instruction_pointer as nat,
                old(self).frames@.last().stack@.push(interned(v, old(self).null)),
            )),
    {
        if let Some(v) = ret {
            self.push_to_active(v);
        }
    }

    /// Pushes `v`, with nulls interned, onto the active frame if there is one.
    fn push_to_active(&mut self, v: Arc<IodineObject>)
        requires
            old(self).wf(),
        ensures
            final(self).wf(),
            final(self).context == old(self).context,
            final(self).null == old(self).null,
            final(self).frames@.len() == old(self).frames@.len(),
            frames_kept(final(self).frames@, old(self).frames@, old(self).frames@.len() - 1),
            old(self).frames@.len() == 0 ==> final(self).frames@ == old(self).frames@,
            old(self).frames@.len() > 0 ==> frame_moved(
                final(self).frames@.last(),
                old(self).frames@.last(),
                old(self).frames@.last().instruction_pointer as nat,
                old(self).frames@.last().stack@.push(interned(v, old(self).null)),
            ),
    {
        let ghost old_frames = self.frames@;
        match self.frames.pop() {
            Some(mut frame) => {
                let value = intern(v, &self.null);
                frame.push(Some(value), &self.null);
                self.frames.push(frame);
                proof {
                    assert(old_frames.last().wf());
                    assert forall|i: int| 0 <= i < self.frames@.len() implies (
                    #[trigger] self.frames@[i]).wf() by {
                        if i < old_frames.len() - 1 {
                            assert(self.frames@[i] == old_frames[i]);
                        }
                    }
                }
            },
            None => {},
        }
    }

    /// Removes and returns the top of the active frame's operand stack.
    pub fn pop(&mut self) -> (r: Result<Arc<IodineObject>, VmError>)
        requires
            old(self).wf(),
        ensures
            final(self).wf(),
            final(self).context == old(self).context,
            final(self).null == old(self).null,
            final(self).frames@.len() == old(self).frames@.len(),
            frames_kept(final(self).frames@, old(self).frames@, old(self).frames@.len() - 1),
            r is Ok <==> old(self).frames@.len() > 0 && old(self).frames@.last().stack@.len() > 0,
            r matches Ok(v) ==> v == old(self).frames@.last().stack@.last() && frame_moved(
                final(self).frames@.last(),
                old(self).frames@.last(),
                old(self).frames@.last().instruction_pointer as nat,
                old(self).frames@.last().stack@.drop_last(),
            ),
            r matches Err(e) ==> e == VmError::StackUnderflow && final(self).frames@ == old(self).frames@,
    {
        let n = self.frames.len();
        if n == 0 || self.frames[n - 1].stack.len() == 0 {
            return Err(VmError::StackUnderflow);
        }
        let ghost old_frames = self.frames@;
        match self.frames.pop() {
            Some(mut frame) => {
                let r = frame.pop();
                self.frames.push(frame);
                proof {
                    assert(old_frames.last().wf());
                    assert forall|i: int| 0 <= i < self.frames@.len() implies (
                    #[trigger] self.frames@[i]).wf() by {
                        if i < old_frames.len() - 1 {
                            assert(self.frames@[i] == old_frames[i]);
                        }
                    }
                }
                r
            },
            None => Err(VmError::StackUnderflow),
        }
    }
}

/// The frames after `resume` and its result, given the frames before it.
pub open spec fn resume_matches(
    r: VmEvent,
    after: Seq<StackFrame>,
    before: Seq<StackFrame>,
    globals: Map<Seq<char>, Arc<IodineObject>>,
    null: Arc<IodineObject>,
) -> bool {
    let n = before.len() as int;
    let f = before.last();
    let run = run_frame(
        code_instructions(*f.code),
        f.instruction_pointer as nat,
        f.stack@,
        globals,
        null,
    );
    match run.end {
        FrameEnd::Completed => if n == 1 {
            &&& r matches VmEvent::Finished(v) && v == null
            &&& after.len() == 0
        } else {
            &&& r is Running
            &&& after.len() == n - 1
            &&& frames_kept(after, before, n - 2)
            &&& frame_moved(
                after[n - 2],
                before[n - 2],
                before[n - 2].instruction_pointer as nat,
                before[n - 2].stack@.push(null),
            )
        },
        FrameEnd::Call(callee, args) => {
            &&& frames_kept(after, before, n - 1)
            &&& frame_moved(after[n - 1], f, run.ip, run.stack)
            &&& match *callee {
                IodineObject::IodineModule { code, .. } => if *code is CodeObject {
                    &&& r is Running
                    &&& after.len() == n + 1
                    &&& fresh_frame_of(after[n], code)
                } else {
                    &&& r matches VmEvent::Faulted(e) && e == VmError::TypeMismatch
                    &&& after.len() == n
                },
                IodineObject::BuiltinMethodCallback { .. } => {
                    &&& r matches VmEvent::CallBuiltin { callee: c, args: a } && c == callee && a@
                        == args
                    &&& after.len() == n
                },
                _ => {
                    &&& r matches VmEvent::Faulted(e) && e == VmError::NotCallable
                    &&& after.len() == n
                },
            }
        },
        FrameEnd::Fail(fault) => {
            &&& r matches VmEvent::Faulted(e) && e@ == fault
            &&& after.len() == n
            &&& frames_kept(after, before, n - 1)
            &&& frame_moved(after[n - 1], f, run.ip, run.stack)
        },
    }
}

impl VirtualMachine {
    /// Moves the machine on: runs the active frame with `eval_code`, then
    /// acts on how it stopped. A completed frame is removed and its return
    /// value pushed onto the caller's stack, or reported when no caller is
    /// left; an `Invoke` goes to `invoke`; a fault is reported.
    pub fn resume(&mut self) -> (r: VmEvent)
        requires
            old(self).wf(),
            old(self).frames@.len() > 0,
            old(self).frames@.len() < usize::MAX,
        ensures
            final(self).wf(),
            final(self).context == old(self).context,
            final(self).null == old(self).null,
            resume_matches(r, final(self).frames@, old(self).frames@, old(self).globals(), old(self).null),
    {
        match self.eval_code() {
            Eval::Completed(ret) => {
                let ghost mid = self.frames@;
                self.end_frame();
                if self.frames.len() == 0 {
                    VmEvent::Finished(ret)
                } else {
                    self.push_to_active(ret);
                    proof {
                        assert(self.frames@.len() == mid.len() - 1);
                        assert forall|i: int| 0 <= i < self.frames@.len() - 1 implies #[trigger] self.frames@[i]
                            == old(self).frames@[i] by {
                            assert(mid[i] == old(self).frames@[i]);
                        }
                    }
                    VmEvent::Running
                }
            },
            Eval::Invoke { callee, args } => {
                let ghost mid = self.frames@;
                let d = self.invoke(callee, args);
                proof {
                    assert forall|i: int| 0 <= i < old(self).frames@.len() implies #[trigger] self.frames@[i]
                        == mid[i] by {
                        if self.frames@.len() > mid.len() {
                            assert(frames_kept(self.frames@, mid, mid.len() as int));
                        }
                    }
                }
                match d {
                    Ok(Dispatch::Entered) => VmEvent::Running,
                    Ok(Dispatch::Builtin { callee, args }) => VmEvent::CallBuiltin { callee, args },
                    Err(e) => VmEvent::Faulted(e),
                }
            },
            Eval::Fault(e) => VmEvent::Faulted(e),
        }
    }
}

/// The position and stack of a frame after `n` instructions from `ip` on
/// `stack`, when each of them went on to the next; `None` when one of them
/// did not.
pub open spec fn after_steps(
    code: Seq<Instruction>,
    ip: nat,
    stack: Seq<Arc<IodineObject>>,
    globals: Map<Seq<char>, Arc<IodineObject>>,
    null: Arc<IodineObject>,
    n: nat,
) -> Option<(nat, Seq<Arc<IodineObject>>)>
    decreases n,
{
    if n == 0 {
        Some((ip, stack))
    } else {
        match after_steps(code, ip, stack, globals, null, (n - 1) as nat) {
            Some((i, s)) => if i < code.len() {
                match step_instr(code[i as int], s, globals, null) {
                    InstrStep::Next(t) => Some((i + 1, t)),
                    _ => None,
                }
            } else {
                None
            },
            None => None,
        }
    }
}

/// Every instruction that goes on moves the position forward by exactly
/// one: after `n` of them from `ip` the position is `ip + n`, so from the
/// start of the code it is `n`.
pub proof fn ip_after_steps(
    code: Seq<Instruction>,
    ip: nat,
    stack: Seq<Arc<IodineObject>>,
    globals: Map<Seq<char>, Arc<IodineObject>>,
    null: Arc<IodineObject>,
    n: nat,
)
    ensures
        after_steps(code, ip, stack, globals, null, n) matches Some((i, _)) ==> i == ip + n,
    decreases n,
{
    if n > 0 {
        ip_after_steps(code, ip, stack, globals, null, (n - 1) as nat);
    }
}

proof fn after_steps_front(
    code: Seq<Instruction>,
    ip: nat,
    stack: Seq<Arc<IodineObject>>,
    globals: Map<Seq<char>, Arc<IodineObject>>,
    null: Arc<IodineObject>,
    n: nat,
)
    requires
        ip < code.len(),
    ensures
        after_steps(code, ip, stack, globals, null, n + 1) == match step_instr(
            code[ip as int],
            stack,
            globals,
            null,
        ) {
            InstrStep::Next(t) => after_steps(code, ip + 1, t, globals, null, n),
            _ => None,
        },
    decreases n,
{
    if n > 0 {
        after_steps_front(code, ip, stack, globals, null, (n - 1) as nat);
        match step_instr(code[ip as int], stack, globals, null) {
            InstrStep::Next(t) => {
                assert(after_steps(code, ip, stack, globals, null, n) == after_steps(
                    code,
                    ip + 1,
                    t,
                    globals,
                    null,
                    (n - 1) as nat,
                ));
            },
            _ => {
                assert(after_steps(code, ip, stack, globals, null, n) is None);
            },
        }
    }
}

/// A run of a frame that completes is made of steps that each went on, one
/// per instruction from `ip` to the end of the code.
pub proof fn completed_run_is_steps(
    code: Seq<Instruction>,
    ip: nat,
    stack: Seq<Arc<IodineObject>>,
    globals: Map<Seq<char>, Arc<IodineObject>>,
    null: Arc<IodineObject>,
)
    requires
        ip <= code.len(),
        run_frame(code, ip, stack, globals, null).end is Completed,
    ensures
        run_frame(code, ip, stack, globals, null).ip == code.len(),
        after_steps(code, ip, stack, globals, null, (code.len() - ip) as nat) == Some(
            (code.len(), run_frame(code, ip, stack, globals, null).stack),
        ),
    decreases code.len() - ip,
{
    if ip < code.len() {
        if let InstrStep::Next(t) = step_instr(code[ip as int], stack, globals, null) {
            completed_run_is_steps(code, ip + 1, t, globals, null);
            after_steps_front(code, ip, stack, globals, null, (code.len() - ip - 1) as nat);
        }
    }
}

/// From `ip` on, the code is made of `Nop`s and of `LoadConst`s each
/// directly followed by a `Pop`.
pub open spec fn loads_paired_with_pops(code: Seq<Instruction>, ip: nat) -> bool
    decreases code.len() - ip,
{
    if ip >= code.len() {
        true
    } else if code[ip as int].opcode == Opcode::Nop {
        loads_paired_with_pops(code, ip + 1)
    } else if code[ip as int].opcode == Opcode::LoadConst && ip + 1 < code.len()
        && code[ip + 1 as int].opcode == Opcode::Pop {
        loads_paired_with_pops(code, ip + 2)
    } else {
        false
    }
}

/// Code where every `LoadConst` is directly followed by a `Pop` completes
/// and leaves the operand stack as it found it; from an empty stack, the
/// stack is empty on completion.
pub proof fn paired_loads_keep_stack(
    code: Seq<Instruction>,
    ip: nat,
    stack: Seq<Arc<IodineObject>>,
    globals: Map<Seq<char>, Arc<IodineObject>>,
    null: Arc<IodineObject>,
)
    requires
        ip <= code.len(),
        loads_paired_with_pops(code, ip),
    ensures
        run_frame(code, ip, stack, globals, null).end is Completed,
        run_frame(code, ip, stack, globals, null).ip == code.len(),
        run_frame(code, ip, stack, globals, null).stack == stack,
    decreases code.len() - ip,
{
    if ip < code.len() {
        if code[ip as int].opcode == Opcode::Nop {
            paired_loads_keep_stack(code, ip + 1, stack, globals, null);
        } else {
            let pushed = stack.push(interned(code[ip as int].object, null));
            assert(pushed.drop_last() =~= stack);
            paired_loads_keep_stack(code, ip + 2, stack, globals, null);
            assert(run_frame(code, ip + 1, pushed, globals, null) == run_frame(
                code,
                ip + 2,
                stack,
                globals,
                null,
            ));
        }
    }
}

/// Every null that an instruction pushes is the machine's null itself.
pub proof fn pushed_nulls_are_interned(
    ins: Instruction,
    stack: Seq<Arc<IodineObject>>,
    globals: Map<Seq<char>, Arc<IodineObject>>,
    null: Arc<IodineObject>,
)
    requires
        is_null_value(*null),
    ensures
        step_instr(ins, stack, globals, null) matches InstrStep::Next(t) ==> (t.len() == stack.len()
            + 1 ==> (*t.last() is IodineNull ==> t.last() == null)),
{
}

/// One `resume` leaves every frame below the active one as it was, except
/// that when the active frame completes, the frame beneath it receives the
/// return value and nothing else.
pub proof fn caller_frames_isolated(
    r: VmEvent,
    after: Seq<StackFrame>,
    before: Seq<StackFrame>,
    globals: Map<Seq<char>, Arc<IodineObject>>,
    null: Arc<IodineObject>,
    c: int,
)
    requires
        resume_matches(r, after, before, globals, null),
        0 <= c < before.len() - 1,
    ensures
        c < after.len(),
        after.len() + 1 >= before.len(),
        after.len() >= before.len() || c < before.len() - 2 ==> after[c] == before[c],
        after.len() < before.len() && c == before.len() - 2 ==> frame_moved(
            after[c],
            before[c],
            before[c].instruction_pointer as nat,
            before[c].stack@.push(null),
        ),
{
    assert(after.len() >= before.len() || c < before.len() - 2 ==> after[c] == before[c]);
}

/// The stack after loading the first `j` operands of `code`.
pub open spec fn loaded_operands(
    code: Seq<Instruction>,
    null: Arc<IodineObject>,
    j: int,
) -> Seq<Arc<IodineObject>> {
    Seq::new(j as nat, |i: int| interned(code[i].object, null))
}

proof fn constant_loads_push(
    code: Seq<Instruction>,
    stack: Seq<Arc<IodineObject>>,
    globals: Map<Seq<char>, Arc<IodineObject>>,
    null: Arc<IodineObject>,
    j: nat,
)
    requires
        j <= code.len(),
        forall|i: int| 0 <= i < j ==> (#[trigger] code[i]).opcode == Opcode::LoadConst,
    ensures
        run_frame(code, 0, stack, globals, null) == run_frame(
            code,
            j,
            stack + loaded_operands(code, null, j as int),
            globals,
            null,
        ),
    decreases j,
{
    if j == 0 {
        assert(stack + loaded_operands(code, null, 0) =~= stack);
    } else {
        constant_loads_push(code, stack, globals, null, (j - 1) as nat);
        let before = stack + loaded_operands(code, null, j - 1);
        assert(before.push(interned(code[j - 1].object, null)) =~= stack + loaded_operands(
            code,
            null,
            j as int,
        ));
    }
}

/// An `Invoke` of `k` arguments that follows `k` constant loads and the
/// load of its callee hands over the loaded values in the order they were
/// pushed: argument `i` is the `i`-th value pushed, and the caller's stack
/// is left as it was before the loads.
pub proof fn invoke_argument_order(
    code: Seq<Instruction>,
    stack: Seq<Arc<IodineObject>>,
    globals: Map<Seq<char>, Arc<IodineObject>>,
    null: Arc<IodineObject>,
    k: nat,
    callee: Arc<IodineObject>,
)
    requires
        code.len() == k + 2,
        forall|i: int| 0 <= i < k ==> (#[trigger] code[i]).opcode == Opcode::LoadConst,
        step_instr(code[k as int], stack + loaded_operands(code, null, k as int), globals, null)
            == InstrStep::Next((stack + loaded_operands(code, null, k as int)).push(callee)),
        code[k + 1 as int].opcode == Opcode::Invoke,
        code[k + 1 as int].argument == k,
    ensures
        run_frame(code, 0, stack, globals, null) == (FrameRun {
            ip: k + 2,
            stack,
            end: FrameEnd::Call(callee, loaded_operands(code, null, k as int)),
        }),
{
    constant_loads_push(code, stack, globals, null, k);
    let args = loaded_operands(code, null, k as int);
    let full = (stack + args).push(callee);
    assert(full.subrange(0, stack.len() as int) =~= stack);
    assert(full.subrange(stack.len() as int, full.len() - 1) =~= args);
    assert(full.last() == callee);
    assert(step_instr(code[k + 1 as int], full, globals, null) == InstrStep::Call(
        stack,
        callee,
        args,
    ));
    assert(run_frame(code, k, stack + args, globals, null) == run_frame(
        code,
        k + 1,
        full,
        globals,
        null,
    ));
}

/// One move of the machine from the frames `before` to the frames `after`: a
/// `resume`, or a builtin's result handed back with `complete_builtin`,
/// which changes the active frame alone.
pub open spec fn machine_move(
    after: Seq<StackFrame>,
    before: Seq<StackFrame>,
    globals: Map<Seq<char>, Arc<IodineObject>>,
    null: Arc<IodineObject>,
) -> bool {
    ||| exists|r: VmEvent| #[trigger] resume_matches(r, after, before, globals, null)
    ||| after.len() == before.len() && frames_kept(after, before, before.len() - 1)
}

/// While a callee runs above the frame `c` of its caller, however many
/// moves it makes, frame `c` stays as it was; when the callee returns,
/// frame `c` has gained the returned value and nothing else.
pub proof fn callee_run_isolated(
    trace: Seq<Seq<StackFrame>>,
    globals: Map<Seq<char>, Arc<IodineObject>>,
    null: Arc<IodineObject>,
    c: int,
)
    requires
        trace.len() >= 1,
        0 <= c < trace[0].len() - 1,
        forall|j: int|
            0 <= j < trace.len() - 1 ==> machine_move(
                #[trigger] trace[j + 1],
                trace[j],
                globals,
                null,
            ),
        forall|j: int| 0 <= j < trace.len() - 1 ==> (#[trigger] trace[j]).len() > c + 1,
    ensures
        trace.last().len() > c + 1 ==> trace.last()[c] == trace[0][c],
        trace.last().len() <= c + 1 ==> trace.last().len() == c + 1 && frame_moved(
            trace.last()[c],
            trace[0][c],
            trace[0][c].instruction_pointer as nat,
            trace[0][c].stack@.push(null),
        ),
    decreases trace.len(),
{
    if trace.len() > 1 {
        let before = trace.drop_last();
        assert forall|j: int| 0 <= j < before.len() - 1 implies machine_move(
            #[trigger] before[j + 1],
            before[j],
            globals,
            null,
        ) by {
            assert(before[j + 1] == trace[j + 1] && before[j] == trace[j]);
        }
        assert forall|j: int| 0 <= j < before.len() - 1 implies (#[trigger] before[j]).len() > c
            + 1 by {
            assert(before[j] == trace[j]);
        }
        callee_run_isolated(before, globals, null, c);
        let k = trace.len() - 2;
        assert(before.last() == trace[k]);
        assert(trace[k].len() > c + 1);
        assert(machine_move(trace[k + 1], trace[k], globals, null));
        assert(trace.last() == trace[k + 1]);
        if exists|r: VmEvent| #[trigger] resume_matches(r, trace[k + 1], trace[k], globals, null) {
            let r = choose|r: VmEvent| #[trigger] resume_matches(r, trace[k + 1], trace[k], globals, null);
            caller_frames_isolated(r, trace[k + 1], trace[k], globals, null, c);
        } else {
            assert(trace[k + 1][c] == trace[k][c]);
        }
    }
}

} // verus!
