use iodine_runtime::iodine_types::{builtin_method, iodine_code_object, iodine_module};
use iodine_runtime::loader::{load, read_constant, read_instruction, read_string, DataType};
use iodine_runtime::opcode::Opcode;
use iodine_runtime::stack_frame::StackFrame;
use iodine_runtime::virtual_machine::{Dispatch, Eval, VirtualMachine, VmEvent};
use iodine_runtime::{AttributeDictionary, Instruction, IodineObject, LoadError, VmError};
use std::sync::Arc;

const MAGIC: [u8; 5] = [0x49, 0x4F, 0x57, 0x49, 0x5A];

fn uleb(mut n: u64) -> Vec<u8> {
    let mut out = Vec::new();
    loop {
        let byte = (n & 0x7f) as u8;
        n >>= 7;
        if n == 0 {
            out.push(byte);
            return out;
        }
        out.push(byte | 0x80);
    }
}

fn text(tag: u8, s: &str) -> Vec<u8> {
    let mut out = vec![tag];
    out.extend(uleb(s.len() as u64));
    out.extend(s.as_bytes());
    out
}

fn name_const(s: &str) -> Vec<u8> {
    text(0x01, s)
}

fn str_const(s: &str) -> Vec<u8> {
    text(0x02, s)
}

fn null_const() -> Vec<u8> {
    vec![0x06]
}

fn ins(op: u8, arg: i32, constant: Vec<u8>) -> Vec<u8> {
    let mut out = vec![op];
    out.extend(arg.to_le_bytes());
    out.extend(constant);
    out.extend(0i32.to_le_bytes());
    out
}

fn artifact(version: [u8; 3], name: &str, instructions: &[Vec<u8>]) -> Vec<u8> {
    let mut out = MAGIC.to_vec();
    out.extend(version);
    out.extend([0u8; 8]);
    out.extend(uleb(name.len() as u64));
    out.extend(name.as_bytes());
    out.push(0);
    out.extend((instructions.len() as u32).to_le_bytes());
    for i in instructions {
        out.extend(i);
    }
    out
}

fn machine(globals: AttributeDictionary) -> VirtualMachine {
    VirtualMachine::new(globals)
}

fn load_module(vm: &VirtualMachine, bytes: &[u8]) -> IodineObject {
    load(bytes, &vm.null).expect("artifact loads").module
}

/// Runs `module` to the end, recording the debug form of the arguments of
/// every builtin call; each builtin returns what `reply` gives.
fn run(
    vm: &mut VirtualMachine,
    module: IodineObject,
    calls: &mut Vec<Vec<String>>,
    reply: &dyn Fn() -> Option<Arc<IodineObject>>,
) -> Result<Arc<IodineObject>, VmError> {
    match vm.invoke(Arc::new(module), Vec::new())? {
        Dispatch::Entered => {}
        Dispatch::Builtin { .. } => panic!("a module is not a builtin"),
    }
    loop {
        match vm.resume() {
            VmEvent::Running => {}
            VmEvent::CallBuiltin { args, .. } => {
                calls.push(args.iter().map(|a| a.debug_format()).collect());
                vm.complete_builtin(reply());
            }
            VmEvent::Finished(v) => return Ok(v),
            VmEvent::Faulted(e) => return Err(e),
        }
    }
}

fn no_reply() -> Option<Arc<IodineObject>> {
    None
}

fn instructions_of(module: &IodineObject) -> &Vec<Instruction> {
    match module {
        IodineObject::IodineModule { code, .. } => code.get_instructions().expect("code object"),
        _ => panic!("not a module"),
    }
}

fn module_of(instructions: &[Vec<u8>], vm: &VirtualMachine) -> IodineObject {
    load_module(vm, &artifact([0, 1, 0], "main", instructions))
}

#[test]
fn empty_module_loads_and_runs() {
    let mut bytes = MAGIC.to_vec();
    bytes.extend([0x00, 0x01, 0x00]);
    bytes.extend([0u8; 8]);
    bytes.extend([0x04]);
    bytes.extend(b"main");
    bytes.extend([0x00, 0x00, 0x00, 0x00, 0x00]);
    let mut vm = machine(AttributeDictionary::new());
    let a = load(&bytes, &vm.null).expect("loads");
    assert_eq!(a.header.ver_to_str(), "0.1.0");
    match &a.module {
        IodineObject::IodineModule { name, .. } => assert_eq!(name, "main"),
        _ => panic!("not a module"),
    }
    assert_eq!(instructions_of(&a.module).len(), 0);
    let ret = run(&mut vm, a.module, &mut Vec::new(), &no_reply).expect("runs");
    assert!(Arc::ptr_eq(&ret, &vm.null));
    assert_eq!(vm.frames.len(), 0);
}

#[test]
fn load_const_null_then_pop() {
    let mut vm = machine(AttributeDictionary::new());
    let module = module_of(&[ins(0x06, 0, null_const()), ins(0x03, 0, null_const())], &vm);
    assert!(matches!(vm.invoke(Arc::new(module), Vec::new()), Ok(Dispatch::Entered)));
    match vm.eval_code() {
        Eval::Completed(v) => assert!(Arc::ptr_eq(&v, &vm.null)),
        _ => panic!("expected completion"),
    }
    assert_eq!(vm.frames[0].stack.len(), 0);
    assert_eq!(vm.frames[0].instruction_pointer, 2);
}

#[test]
fn print_builtin_receives_string() {
    let mut globals = AttributeDictionary::new();
    globals.insert("print".to_string(), builtin_method::create(7));
    let mut vm = machine(globals);
    let module = module_of(
        &[ins(0x06, 0, str_const("hi")), ins(0x0D, 0, name_const("print")), ins(0x14, 1, null_const())],
        &vm,
    );
    assert!(matches!(vm.invoke(Arc::new(module), Vec::new()), Ok(Dispatch::Entered)));
    match vm.resume() {
        VmEvent::CallBuiltin { callee, args } => {
            assert!(matches!(*callee, IodineObject::BuiltinMethodCallback { callback: 7, .. }));
            assert_eq!(args.len(), 1);
            assert_eq!(args[0].debug_format(), "hi");
        }
        _ => panic!("expected a builtin call"),
    }
    vm.complete_builtin(None);
    assert_eq!(vm.frames[0].stack.len(), 0);
    assert!(matches!(vm.resume(), VmEvent::Finished(_)));
}

#[test]
fn bad_magic_is_rejected() {
    let mut bytes = artifact([0, 1, 0], "main", &[]);
    for b in bytes.iter_mut().take(5) {
        *b = 0;
    }
    let vm = machine(AttributeDictionary::new());
    assert!(matches!(load(&bytes, &vm.null), Err(LoadError::BadMagic)));
}

#[test]
fn missing_global_faults_with_its_name() {
    let mut vm = machine(AttributeDictionary::new());
    let module = module_of(&[ins(0x0D, 0, name_const("absent"))], &vm);
    let r = run(&mut vm, module, &mut Vec::new(), &no_reply);
    assert_eq!(r.err(), Some(VmError::UnboundGlobal("absent".to_string())));
}

#[test]
fn invoking_a_string_is_not_callable() {
    let mut vm = machine(AttributeDictionary::new());
    let module = module_of(
        &[ins(0x06, 0, str_const("x")), ins(0x06, 0, str_const("y")), ins(0x14, 0, null_const())],
        &vm,
    );
    assert!(matches!(vm.invoke(Arc::new(module), Vec::new()), Ok(Dispatch::Entered)));
    match vm.eval_code() {
        Eval::Invoke { callee, args } => {
            assert_eq!(callee.debug_format(), "y");
            assert_eq!(args.len(), 0);
            assert!(matches!(vm.invoke(callee, args), Err(VmError::NotCallable)));
        }
        _ => panic!("expected an invoke"),
    }
    assert_eq!(vm.frames[0].stack.len(), 1);
}

#[test]
fn loaded_module_keeps_count_order_and_kinds() {
    let vm = machine(AttributeDictionary::new());
    let module = module_of(
        &[
            ins(0x0D, 3, name_const("n")),
            ins(0x06, -2, str_const("s")),
            ins(0x00, 0, null_const()),
            ins(0x03, 9, null_const()),
        ],
        &vm,
    );
    let code = instructions_of(&module);
    assert_eq!(code.len(), 4);
    assert_eq!(code[0].opcode, Opcode::LoadGlobal);
    assert_eq!(code[0].argument, 3);
    assert!(matches!(&*code[0].object, IodineObject::IodineName { value, .. } if value == "n"));
    assert_eq!(code[1].opcode, Opcode::LoadConst);
    assert_eq!(code[1].argument, -2);
    assert!(matches!(&*code[1].object, IodineObject::IodineString { value, .. } if value == "s"));
    assert_eq!(code[2].opcode, Opcode::Nop);
    assert!(Arc::ptr_eq(&code[2].object, &vm.null));
    assert_eq!(code[3].opcode, Opcode::Pop);
    assert_eq!(code[3].argument, 9);
}

#[test]
fn ip_counts_executed_instructions() {
    let mut vm = machine(AttributeDictionary::new());
    let module = module_of(
        &[ins(0x00, 0, null_const()), ins(0x00, 0, null_const()), ins(0x00, 0, null_const())],
        &vm,
    );
    assert!(matches!(vm.invoke(Arc::new(module), Vec::new()), Ok(Dispatch::Entered)));
    assert_eq!(vm.frames[0].instruction_pointer, 0);
    assert!(matches!(vm.eval_code(), Eval::Completed(_)));
    assert_eq!(vm.frames[0].instruction_pointer, 3);
}

#[test]
fn ip_stops_past_the_invoke() {
    let mut vm = machine(AttributeDictionary::new());
    let module = module_of(
        &[ins(0x00, 0, null_const()), ins(0x06, 0, str_const("f")), ins(0x14, 0, null_const()), ins(0x00, 0, null_const())],
        &vm,
    );
    assert!(matches!(vm.invoke(Arc::new(module), Vec::new()), Ok(Dispatch::Entered)));
    assert!(matches!(vm.eval_code(), Eval::Invoke { .. }));
    assert_eq!(vm.frames[0].instruction_pointer, 3);
}

#[test]
fn paired_loads_and_pops_leave_stack_empty() {
    let mut vm = machine(AttributeDictionary::new());
    let module = module_of(
        &[
            ins(0x06, 0, str_const("a")),
            ins(0x03, 0, null_const()),
            ins(0x00, 0, null_const()),
            ins(0x06, 0, name_const("b")),
            ins(0x03, 0, null_const()),
        ],
        &vm,
    );
    assert!(matches!(vm.invoke(Arc::new(module), Vec::new()), Ok(Dispatch::Entered)));
    assert!(matches!(vm.eval_code(), Eval::Completed(_)));
    assert!(vm.frames[0].stack.is_empty());
}

#[test]
fn loaded_null_is_the_machine_null() {
    let mut vm = machine(AttributeDictionary::new());
    let module = module_of(&[ins(0x06, 0, null_const())], &vm);
    assert!(matches!(vm.invoke(Arc::new(module), Vec::new()), Ok(Dispatch::Entered)));
    assert!(matches!(vm.eval_code(), Eval::Completed(_)));
    assert!(Arc::ptr_eq(&vm.frames[0].stack[0], &vm.null));
}

#[test]
fn foreign_null_constant_is_interned() {
    let mut vm = machine(AttributeDictionary::new());
    let other_null = Arc::new(IodineObject::null());
    let mut code = iodine_code_object::create();
    code.push_instruction(Instruction { opcode: Opcode::LoadConst, argument: 0, object: other_null.clone() })
        .expect("code object");
    let module = iodine_module::create("m".to_string(), Box::new(code));
    assert!(matches!(vm.invoke(Arc::new(module), Vec::new()), Ok(Dispatch::Entered)));
    assert!(matches!(vm.eval_code(), Eval::Completed(_)));
    assert!(Arc::ptr_eq(&vm.frames[0].stack[0], &vm.null));
    assert!(!Arc::ptr_eq(&vm.frames[0].stack[0], &other_null));
}

#[test]
fn builtin_null_result_is_interned() {
    let mut globals = AttributeDictionary::new();
    globals.insert("f".to_string(), builtin_method::create(1));
    let mut vm = machine(globals);
    let module = module_of(&[ins(0x0D, 0, name_const("f")), ins(0x14, 0, null_const())], &vm);
    assert!(matches!(vm.invoke(Arc::new(module), Vec::new()), Ok(Dispatch::Entered)));
    assert!(matches!(vm.resume(), VmEvent::CallBuiltin { .. }));
    vm.complete_builtin(Some(Arc::new(IodineObject::null())));
    assert_eq!(vm.frames[0].stack.len(), 1);
    assert!(Arc::ptr_eq(&vm.frames[0].stack[0], &vm.null));
}

#[test]
fn frame_push_of_nothing_is_the_null() {
    let vm = machine(AttributeDictionary::new());
    let mut frame = StackFrame::new(Arc::new(iodine_code_object::create()));
    frame.push(None, &vm.null);
    assert!(Arc::ptr_eq(&frame.stack[0], &vm.null));
    let s = iodine_runtime::iodine_types::iodine_string::create("v".to_string());
    frame.push(Some(s.clone()), &vm.null);
    assert!(Arc::ptr_eq(&frame.stack[1], &s));
}

#[test]
fn callee_operands_stay_in_callee_frame() {
    let vm0 = machine(AttributeDictionary::new());
    let sub = module_of(&[ins(0x06, 0, str_const("inner")), ins(0x06, 0, str_const("inner2"))], &vm0);
    let mut globals = AttributeDictionary::new();
    globals.insert("sub".to_string(), Arc::new(sub));
    let mut vm = machine(globals);
    let main = module_of(
        &[ins(0x06, 0, str_const("a")), ins(0x0D, 0, name_const("sub")), ins(0x14, 0, null_const())],
        &vm,
    );
    assert!(matches!(vm.invoke(Arc::new(main), Vec::new()), Ok(Dispatch::Entered)));
    assert!(matches!(vm.resume(), VmEvent::Running));
    assert_eq!(vm.frames.len(), 2);
    assert_eq!(vm.frames[0].stack.len(), 1);
    assert!(matches!(vm.resume(), VmEvent::Running));
    assert_eq!(vm.frames.len(), 1);
    let caller: Vec<String> = vm.frames[0].stack.iter().map(|v| v.debug_format()).collect();
    assert_eq!(caller, vec!["a".to_string(), "Null".to_string()]);
    assert!(Arc::ptr_eq(&vm.frames[0].stack[1], &vm.null));
    assert!(matches!(vm.resume(), VmEvent::Finished(_)));
}

#[test]
fn builtin_arguments_in_push_order() {
    let mut globals = AttributeDictionary::new();
    globals.insert("f".to_string(), builtin_method::create(2));
    let mut vm = machine(globals);
    let module = module_of(
        &[
            ins(0x06, 0, str_const("a")),
            ins(0x06, 0, str_const("b")),
            ins(0x06, 0, str_const("c")),
            ins(0x0D, 0, name_const("f")),
            ins(0x14, 3, null_const()),
        ],
        &vm,
    );
    let mut calls = Vec::new();
    run(&mut vm, module, &mut calls, &no_reply).expect("runs");
    assert_eq!(calls, vec![vec!["a".to_string(), "b".to_string(), "c".to_string()]]);
}

#[test]
fn builtin_result_is_pushed() {
    let mut globals = AttributeDictionary::new();
    globals.insert("f".to_string(), builtin_method::create(2));
    let mut vm = machine(globals);
    let module = module_of(&[ins(0x06, 0, str_const("below")), ins(0x0D, 0, name_const("f")), ins(0x14, 0, null_const())], &vm);
    assert!(matches!(vm.invoke(Arc::new(module), Vec::new()), Ok(Dispatch::Entered)));
    assert!(matches!(vm.resume(), VmEvent::CallBuiltin { .. }));
    vm.complete_builtin(Some(iodine_runtime::iodine_types::iodine_string::create("out".to_string())));
    let stack: Vec<String> = vm.frames[0].stack.iter().map(|v| v.debug_format()).collect();
    assert_eq!(stack, vec!["below".to_string(), "out".to_string()]);
}

#[test]
fn pop_on_empty_stack_underflows() {
    let mut vm = machine(AttributeDictionary::new());
    let module = module_of(&[ins(0x03, 0, null_const())], &vm);
    assert_eq!(run(&mut vm, module, &mut Vec::new(), &no_reply).err(), Some(VmError::StackUnderflow));
}

#[test]
fn invoke_short_of_arguments_underflows() {
    let mut globals = AttributeDictionary::new();
    globals.insert("f".to_string(), builtin_method::create(2));
    let mut vm = machine(globals);
    let module = module_of(&[ins(0x0D, 0, name_const("f")), ins(0x14, 2, null_const())], &vm);
    assert_eq!(run(&mut vm, module, &mut Vec::new(), &no_reply).err(), Some(VmError::StackUnderflow));
}

#[test]
fn negative_argument_count_underflows() {
    let mut globals = AttributeDictionary::new();
    globals.insert("f".to_string(), builtin_method::create(2));
    let mut vm = machine(globals);
    let module = module_of(&[ins(0x0D, 0, name_const("f")), ins(0x14, -1, null_const())], &vm);
    assert_eq!(run(&mut vm, module, &mut Vec::new(), &no_reply).err(), Some(VmError::StackUnderflow));
}

#[test]
fn load_global_of_string_is_type_mismatch() {
    let mut vm = machine(AttributeDictionary::new());
    let module = module_of(&[ins(0x0D, 0, str_const("print"))], &vm);
    assert_eq!(run(&mut vm, module, &mut Vec::new(), &no_reply).err(), Some(VmError::TypeMismatch));
}

#[test]
fn module_without_code_is_type_mismatch() {
    let mut vm = machine(AttributeDictionary::new());
    let bad = IodineObject::IodineModule {
        attribs: AttributeDictionary::new(),
        name: "m".to_string(),
        code: Arc::new(IodineObject::null()),
    };
    assert!(matches!(vm.invoke(Arc::new(bad), Vec::new()), Err(VmError::TypeMismatch)));
    assert_eq!(vm.frames.len(), 0);
}

#[test]
fn builtin_invoke_hands_back_callee_and_arguments() {
    let mut vm = machine(AttributeDictionary::new());
    let b = builtin_method::create(5);
    let arg = iodine_runtime::iodine_types::iodine_string::create("x".to_string());
    match vm.invoke(b.clone(), vec![arg.clone()]) {
        Ok(Dispatch::Builtin { callee, args }) => {
            assert!(Arc::ptr_eq(&callee, &b));
            assert!(Arc::ptr_eq(&args[0], &arg));
        }
        _ => panic!("expected a builtin"),
    }
}

#[test]
fn frames_and_counters() {
    let mut vm = machine(AttributeDictionary::new());
    assert!(vm.end_frame().is_none());
    assert_eq!(vm.frame_count, 0);
    vm.new_frame(StackFrame::new(Arc::new(iodine_code_object::create())));
    vm.new_frame(StackFrame::new(Arc::new(iodine_code_object::create())));
    assert_eq!((vm.frame_count, vm.stack_size, vm.frames.len()), (2, 2, 2));
    assert!(vm.end_frame().is_some());
    assert_eq!((vm.frame_count, vm.stack_size, vm.frames.len()), (1, 1, 1));
    assert_eq!(vm.pop().err(), Some(VmError::StackUnderflow));
    vm.frames[0].push(None, &vm.null.clone());
    assert!(Arc::ptr_eq(&vm.pop().expect("one value"), &vm.null));
}

#[test]
fn empty_input_is_truncated() {
    let vm = machine(AttributeDictionary::new());
    assert!(matches!(load(&[], &vm.null), Err(LoadError::Truncated)));
    assert!(matches!(load(&MAGIC[..3], &vm.null), Err(LoadError::Truncated)));
    assert!(matches!(load(&[0x49, 0x00], &vm.null), Err(LoadError::BadMagic)));
}

#[test]
fn truncated_instruction_is_rejected() {
    let vm = machine(AttributeDictionary::new());
    let mut bytes = artifact([0, 1, 0], "m", &[ins(0x06, 0, null_const())]);
    bytes.truncate(bytes.len() - 1);
    assert!(matches!(load(&bytes, &vm.null), Err(LoadError::Truncated)));
    let mut short = artifact([0, 1, 0], "m", &[ins(0x00, 0, null_const()), ins(0x00, 0, null_const())]);
    short.truncate(short.len() - 10);
    assert!(matches!(load(&short, &vm.null), Err(LoadError::Truncated)));
}

#[test]
fn unknown_opcode_is_rejected() {
    let vm = machine(AttributeDictionary::new());
    let bytes = artifact([0, 1, 0], "m", &[ins(0x07, 0, null_const())]);
    assert!(matches!(load(&bytes, &vm.null), Err(LoadError::UnknownOpcode(0x07))));
}

#[test]
fn unbuilt_constant_tags_are_rejected() {
    let vm = machine(AttributeDictionary::new());
    for tag in [0x00u8, 0x03, 0x04, 0x05, 0x07, 0x08] {
        let bytes = artifact([0, 1, 0], "m", &[ins(0x06, 0, vec![tag, 0, 0, 0, 0])]);
        assert!(matches!(load(&bytes, &vm.null), Err(LoadError::UnknownConstant(t)) if t == tag));
    }
}

#[test]
fn bad_utf8_name_is_rejected() {
    let vm = machine(AttributeDictionary::new());
    let mut bytes = MAGIC.to_vec();
    bytes.extend([0u8; 11]);
    bytes.extend([0x02, 0xC3, 0x28, 0x00, 0, 0, 0, 0]);
    assert!(matches!(load(&bytes, &vm.null), Err(LoadError::BadUtf8)));
}

#[test]
fn overlong_length_prefix_is_rejected() {
    let mut bytes = vec![0xFFu8; 9];
    bytes.push(0x02);
    bytes.extend([0x41; 4]);
    assert!(matches!(read_string(&bytes, 0), Err(LoadError::BadLength)));
    let mut unfinished = vec![0x80u8; 3];
    unfinished.truncate(3);
    assert!(matches!(read_string(&unfinished, 0), Err(LoadError::BadLength)));
    let mut huge = vec![0x80u8; 9];
    huge.push(0x01);
    assert!(matches!(read_string(&huge, 0), Err(LoadError::Truncated)));
}

#[test]
fn multibyte_length_prefix_is_decoded() {
    let body = "z".repeat(200);
    let mut bytes = vec![0xAAu8];
    bytes.extend([0xC8, 0x01]);
    bytes.extend(body.as_bytes());
    bytes.push(0xBB);
    let (s, end) = read_string(&bytes, 1).expect("reads");
    assert_eq!(s, body);
    assert_eq!(end, 203);
}

#[test]
fn utf8_text_is_decoded() {
    let bytes = text(0x02, "h\u{e9}llo \u{2603}");
    let vm = machine(AttributeDictionary::new());
    let (o, end) = read_constant(&bytes, 0, &vm.null).expect("reads");
    assert_eq!(end, bytes.len());
    assert_eq!(o.debug_format(), "h\u{e9}llo \u{2603}");
    assert_eq!(o.get_type(), "Str");
}

#[test]
fn argument_and_count_are_little_endian() {
    let vm = machine(AttributeDictionary::new());
    let bytes = ins(0x14, 0x0102_0304, null_const());
    let (i, end) = read_instruction(&bytes, 0, &vm.null).expect("reads");
    assert_eq!(i.argument, 0x0102_0304);
    assert_eq!(end, bytes.len());
    let neg = ins(0x14, -2, null_const());
    assert_eq!(read_instruction(&neg, 0, &vm.null).expect("reads").0.argument, -2);
    let module = module_of(&[ins(0x00, 0, null_const())], &vm);
    assert_eq!(instructions_of(&module).len(), 1);
}

#[test]
fn version_is_printed_in_decimal() {
    let vm = machine(AttributeDictionary::new());
    let a = load(&artifact([1, 22, 255], "m", &[]), &vm.null).expect("loads");
    assert_eq!(a.header.version, [1, 22, 255]);
    assert_eq!(a.header.ver_to_str(), "1.22.255");
}

#[test]
fn trailing_bytes_are_ignored() {
    let vm = machine(AttributeDictionary::new());
    let mut bytes = artifact([0, 1, 0], "m", &[]);
    bytes.extend([0xFF, 0xFF]);
    assert!(load(&bytes, &vm.null).is_ok());
}

#[test]
fn attribute_dictionary_insert_get_replace() {
    let mut d = AttributeDictionary::new();
    assert_eq!(d.len(), 0);
    let a = iodine_runtime::iodine_types::iodine_string::create("a".to_string());
    let b = iodine_runtime::iodine_types::iodine_string::create("b".to_string());
    d.insert("k".to_string(), a.clone());
    d.insert("j".to_string(), b.clone());
    assert_eq!(d.len(), 2);
    assert!(Arc::ptr_eq(&d.get(&"k".to_string()).expect("present"), &a));
    d.insert("k".to_string(), b.clone());
    assert_eq!(d.len(), 2);
    assert!(Arc::ptr_eq(&d.get(&"k".to_string()).expect("present"), &b));
    assert!(d.get(&"missing".to_string()).is_none());
}

#[test]
fn type_tags_and_printed_forms() {
    let s = iodine_runtime::iodine_types::iodine_string::create("txt".to_string());
    let n = iodine_runtime::iodine_types::iodine_name::create("nm".to_string());
    let c = iodine_code_object::create();
    let m = iodine_module::create("mod".to_string(), Box::new(iodine_code_object::create()));
    let b = builtin_method::create(0);
    let z = IodineObject::null();
    let o = IodineObject::IodineObject { attribs: AttributeDictionary::new() };
    let tags: Vec<String> = [&*s, &n, &c, &m, &*b, &z, &o].iter().map(|v| v.get_type()).collect();
    assert_eq!(tags, vec!["Str", "Name", "Code", "Module", "Builtin", "Null", "Object"]);
    let printed: Vec<String> = [&*s, &n, &c, &m, &*b, &z, &o].iter().map(|v| v.debug_format()).collect();
    assert_eq!(printed, vec!["txt", "nm", "Code", "Module", "Builtin", "Null", "Object"]);
    assert_eq!(m.get_base(), "Object");
    assert!(s.has_attribute().is_none());
}

#[test]
fn code_only_operations_reject_other_values() {
    let mut n = iodine_runtime::iodine_types::iodine_name::create("nm".to_string());
    let ins = Instruction { opcode: Opcode::Nop, argument: 0, object: Arc::new(IodineObject::null()) };
    assert_eq!(n.push_instruction(ins).err(), Some(VmError::TypeMismatch));
    assert!(matches!(n.get_instructions(), Err(VmError::TypeMismatch)));
    assert!(matches!(n.get_instructions_mut(), Err(VmError::TypeMismatch)));
    let mut c = iodine_code_object::create();
    c.get_instructions_mut().expect("code").push(Instruction {
        opcode: Opcode::Pop,
        argument: 1,
        object: Arc::new(IodineObject::null()),
    });
    assert_eq!(c.get_instructions().expect("code").len(), 1);
}

#[test]
fn operand_text_only_for_names() {
    let named = Instruction { opcode: Opcode::LoadGlobal, argument: 0, object: Arc::new(iodine_runtime::iodine_types::iodine_name::create("g".to_string())) };
    assert_eq!(named.get_string(), Ok("g".to_string()));
    let other = Instruction { opcode: Opcode::LoadGlobal, argument: 0, object: iodine_runtime::iodine_types::iodine_string::create("g".to_string()) };
    assert_eq!(other.get_string(), Err(VmError::TypeMismatch));
}

#[test]
fn type_registry_names_each_type() {
    let (name, attribs) = iodine_runtime::iodine_types::create_type("Str");
    assert_eq!(name, "Str");
    assert_eq!(attribs.len(), 1);
    assert_eq!(attribs.get(&"__name__".to_string()).expect("named").debug_format(), "Str");
    let reg = iodine_runtime::iodine_types::type_registry();
    let names: Vec<&str> = reg.iter().map(|(n, _)| n.as_str()).collect();
    assert_eq!(names, vec!["Object", "Str", "Code", "Module", "Null", "Name"]);
    let vm = machine(AttributeDictionary::new());
    let held: Vec<&str> = vm.types.iter().map(|(n, _)| n.as_str()).collect();
    assert_eq!(held, names);
    assert_eq!(vm.types[4].1.get(&"__name__".to_string()).expect("named").debug_format(), "Null");
}

#[test]
fn opcode_and_tag_bytes() {
    for (b, op) in [(0x00u8, Opcode::Nop), (0x03, Opcode::Pop), (0x06, Opcode::LoadConst), (0x0D, Opcode::LoadGlobal), (0x14, Opcode::Invoke)] {
        assert_eq!(Opcode::from_byte(b), Some(op));
        assert_eq!(op.to_byte(), b);
    }
    assert_eq!(Opcode::from_byte(0x01), None);
    assert_eq!(DataType::from_byte(0x06), Some(DataType::NullObject));
    assert_eq!(DataType::from_byte(0x01), Some(DataType::NameObject));
    assert_eq!(DataType::from_byte(0x08), None);
}
