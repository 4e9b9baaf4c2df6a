use byteorder::{ByteOrder, LittleEndian};
use std::sync::Arc;
use vstd::prelude::*;
use vstd::utf8::{decode_utf8, valid_utf8};

use crate::error::LoadError;
use crate::iodine_types::{iodine_module, iodine_name, iodine_string};
use crate::object::{
    bare, is_name_of, is_string_of, share, AttributeDictionary, Instruction, IodineObject,
};
use crate::opcode::{opcode_of, Opcode};

verus! {

// The wire format, as spec functions over the artifact's bytes.
/// The five bytes that open every artifact: "IOWIZ".
pub open spec fn magic() -> Seq<u8> {
    seq![0x49u8, 0x4F, 0x57, 0x49, 0x5A]
}

/// The number in the first four bytes of `b`, least significant byte first.
pub open spec fn le_u32_of(b: Seq<u8>) -> nat {
    b[0] as nat + 0x100 * b[1] as nat + 0x1_0000 * b[2] as nat + 0x100_0000 * b[3] as nat
}

/// The two's complement reading of the first four bytes of `b`.
pub open spec fn le_i32_of(b: Seq<u8>) -> int {
    if le_u32_of(b) >= 0x8000_0000 {
        le_u32_of(b) - 0x1_0000_0000
    } else {
        le_u32_of(b) as int
    }
}

/// The unsigned LEB128 number that starts at index `i` of `b`, whose
/// earlier bytes have been read, with the index just past it. A number
/// runs to its first byte below 0x80, within ten bytes; the tenth may
/// only be 0 or 1, so that the number fits in 64 bits.
pub open spec fn uleb128_from(b: Seq<u8>, i: nat) -> Option<(nat, nat)>
    decreases 10 - i,
{
    if i >= 10 || i >= b.len() || (i == 9 && b[9] > 1) {
        None
    } else if b[i as int] < 0x80 {
        Some((b[i as int] as nat, i + 1))
    } else {
        match uleb128_from(b, i + 1) {
            Some((v, n)) => Some(((b[i as int] - 0x80) as nat + 0x80 * v, n)),
            None => None,
        }
    }
}

/// A LEB128 number takes at least one byte, at most ten, and no more than there are.
pub proof fn lemma_uleb128_size(b: Seq<u8>, i: nat)
    ensures
        uleb128_from(b, i) matches Some((v, n)) ==> i < n <= b.len() && n <= 10,
    decreases 10 - i,
{
    if i < 10 && i < b.len() && !(i == 9 && b[9] > 1) && b[i as int] >= 0x80 {
        lemma_uleb128_size(b, i + 1);
    }
}

/// A constant operand as the artifact spells it.
pub enum Constant {
    Name(Seq<char>),
    Str(Seq<char>),
    Null,
}

/// An instruction as the artifact spells it.
pub struct InstructionModel {
    pub opcode: Opcode,
    pub argument: i32,
    pub operand: Constant,
}

/// A module as the artifact spells it.
pub struct ModuleModel {
    pub name: Seq<char>,
    pub instructions: Seq<InstructionModel>,
}

/// A whole artifact: its version bytes and its module.
pub struct ArtifactModel {
    pub version: Seq<u8>,
    pub module: ModuleModel,
}

/// A string at `pos`: a LEB128 length, then that many bytes of UTF-8.
pub open spec fn spec_read_string(b: Seq<u8>, pos: nat) -> Result<(Seq<char>, nat), LoadError> {
    if pos > b.len() {
        Err(LoadError::Truncated)
    } else {
        match uleb128_from(b.subrange(pos as int, b.len() as int), 0) {
            None => Err(LoadError::BadLength),
            Some((len, n)) => {
                let start = pos + n;
                if start + len > b.len() {
                    Err(LoadError::Truncated)
                } else {
                    let raw = b.subrange(start as int, (start + len) as int);
                    if valid_utf8(raw) {
                        Ok((decode_utf8(raw), (start + len) as nat))
                    } else {
                        Err(LoadError::BadUtf8)
                    }
                }
            },
        }
    }
}

/// A constant at `pos`: a type tag, then its body.
pub open spec fn spec_read_constant(b: Seq<u8>, pos: nat) -> Result<(Constant, nat), LoadError> {
    if pos >= b.len() {
        Err(LoadError::Truncated)
    } else {
        let tag = b[pos as int];
        if tag == 0x01 {
            match spec_read_string(b, pos + 1) {
                Ok((t, p)) => Ok((Constant::Name(t), p)),
                Err(e) => Err(e),
            }
        } else if tag == 0x02 {
            match spec_read_string(b, pos + 1) {
                Ok((t, p)) => Ok((Constant::Str(t), p)),
                Err(e) => Err(e),
            }
        } else if tag == 0x06 {
            Ok((Constant::Null, pos + 1))
        } else {
            Err(LoadError::UnknownConstant(tag))
        }
    }
}

/// An instruction at `pos`: opcode byte, 32-bit argument, constant operand,
/// and a 32-bit line number that is skipped.
pub open spec fn spec_read_instruction(b: Seq<u8>, pos: nat) -> Result<(InstructionModel, nat), LoadError> {
    if pos >= b.len() {
        Err(LoadError::Truncated)
    } else {
        match opcode_of(b[pos as int]) {
            None => Err(LoadError::UnknownOpcode(b[pos as int])),
            Some(op) => if pos + 5 > b.len() {
                Err(LoadError::Truncated)
            } else {
                let argument = le_i32_of(b.subrange(pos + 1 as int, pos + 5 as int)) as i32;
                match spec_read_constant(b, pos + 5) {
                    Err(e) => Err(e),
                    Ok((operand, p)) => if p + 4 > b.len() {
                        Err(LoadError::Truncated)
                    } else {
                        Ok((InstructionModel { opcode: op, argument, operand }, p + 4))
                    },
                }
            },
        }
    }
}

/// `count` instructions in a row from `pos`.
pub open spec fn spec_read_instructions(b: Seq<u8>, pos: nat, count: nat) -> Result<
    (Seq<InstructionModel>, nat),
    LoadError,
>
    decreases count,
{
    if count == 0 {
        Ok((Seq::empty(), pos))
    } else {
        match spec_read_instruction(b, pos) {
            Err(e) => Err(e),
            Ok((first, p)) => match spec_read_instructions(b, p, (count - 1) as nat) {
                Err(e) => Err(e),
                Ok((rest, q)) => Ok((seq![first] + rest, q)),
            },
        }
    }
}

/// A code object at `pos`: a 32-bit count, then that many instructions.
pub open spec fn spec_read_code_object(b: Seq<u8>, pos: nat) -> Result<(Seq<InstructionModel>, nat), LoadError> {
    if pos + 4 > b.len() {
        Err(LoadError::Truncated)
    } else {
        spec_read_instructions(b, pos + 4, le_u32_of(b.subrange(pos as int, pos + 4 as int)))
    }
}

/// A module at `pos`: its name, a reserved byte, then its code object.
pub open spec fn spec_read_module(b: Seq<u8>, pos: nat) -> Result<(ModuleModel, nat), LoadError> {
    match spec_read_string(b, pos) {
        Err(e) => Err(e),
        Ok((name, p)) => if p >= b.len() {
            Err(LoadError::Truncated)
        } else {
            match spec_read_code_object(b, p + 1) {
                Err(e) => Err(e),
                Ok((instructions, q)) => Ok((ModuleModel { name, instructions }, q)),
            }
        },
    }
}

/// Some byte among the first five differs from the magic.
pub open spec fn bad_magic(b: Seq<u8>) -> bool {
    exists|i: int| 0 <= i < 5 && i < b.len() && b[i] != magic()[i]
}

/// The header: magic, three version bytes, eight reserved bytes.
pub open spec fn spec_read_header(b: Seq<u8>) -> Result<Seq<u8>, LoadError> {
    if bad_magic(b) {
        Err(LoadError::BadMagic)
    } else if b.len() < 16 {
        Err(LoadError::Truncated)
    } else {
        Ok(b.subrange(5, 8))
    }
}

/// A whole artifact: the header, then the module. Bytes after the module
/// are not read.
pub open spec fn spec_load(b: Seq<u8>) -> Result<ArtifactModel, LoadError> {
    match spec_read_header(b) {
        Err(e) => Err(e),
        Ok(version) => match spec_read_module(b, 16) {
            Err(e) => Err(e),
            Ok((module, _)) => Ok(ArtifactModel { version, module }),
        },
    }
}

// What the loaded values hold.
/// `o` is the value that `c` spells, with `null` standing for every null.
pub open spec fn constant_matches(o: Arc<IodineObject>, c: Constant, null: Arc<IodineObject>) -> bool {
    match c {
        Constant::Name(t) => is_name_of(*o, t),
        Constant::Str(t) => is_string_of(*o, t),
        Constant::Null => o == null,
    }
}

/// `i` is the instruction that `m` spells.
pub open spec fn instruction_matches(i: Instruction, m: InstructionModel, null: Arc<IodineObject>) -> bool {
    &&& i.opcode == m.opcode
    &&& i.argument == m.argument
    &&& constant_matches(i.object, m.operand, null)
}

/// `code` is a bare code object holding the instructions that `ms` spells, in order.
pub open spec fn code_matches(code: IodineObject, ms: Seq<InstructionModel>, null: Arc<IodineObject>) -> bool {
    &&& bare(code)
    &&& code is CodeObject
    &&& code->CodeObject_instructions@.len() == ms.len()
    &&& forall|i: int|
        0 <= i < ms.len() ==> instruction_matches(
            #[trigger] code->CodeObject_instructions@[i],
            ms[i],
            null,
        )
}

/// `o` is a bare module with the name and the code that `m` spells.
pub open spec fn module_matches(o: IodineObject, m: ModuleModel, null: Arc<IodineObject>) -> bool {
    &&& bare(o)
    &&& o is IodineModule
    &&& o->IodineModule_name@ == m.name
    &&& code_matches(*o->IodineModule_code, m.instructions, null)
}

// Calls into the outside crates.
/// Relies on `leb128::read::unsigned` reading from a byte slice: on success
/// it returns the number and leaves the slice past the bytes it consumed;
/// it fails at the end of input, and on a tenth byte other than 0 or 1.
#[verifier::external_body]
fn read_uleb128(bytes: &[u8]) -> (r: Option<(u64, &[u8])>)
    ensures
        match uleb128_from(bytes@, 0) {
            Some((v, n)) => r matches Some((x, rest)) && x == v && rest@ == bytes@.subrange(
                n as int,
                bytes@.len() as int,
            ),
            None => r is None,
        },
{
    let mut rest = bytes;
    match leb128::read::unsigned(&mut rest) {
        Ok(v) => Some((v, rest)),
        Err(_) => None,
    }
}

/// Relies on byteorder's `LittleEndian::read_u32`, which reads the first
/// four bytes least significant first and panics on fewer.
#[verifier::external_body]
fn read_u32_le(bytes: &[u8]) -> (r: u32)
    requires
        bytes@.len() >= 4,
    ensures
        r == le_u32_of(bytes@),
{
    LittleEndian::read_u32(bytes)
}

/// Relies on byteorder's `LittleEndian::read_i32`, the two's complement
/// reading of what `read_u32` returns.
#[verifier::external_body]
fn read_i32_le(bytes: &[u8]) -> (r: i32)
    requires
        bytes@.len() >= 4,
    ensures
        r == le_i32_of(bytes@),
{
    LittleEndian::read_i32(bytes)
}

/// Relies on `String::from_utf8`, which accepts exactly the valid UTF-8
/// byte sequences and keeps the characters they encode.
#[verifier::external_body]
fn string_from_utf8(bytes: Vec<u8>) -> (r: Option<String>)
    ensures
        r is Some <==> valid_utf8(bytes@),
        r matches Some(s) ==> s@ == decode_utf8(bytes@),
{
    String::from_utf8(bytes).ok()
}

/// The type tags of constants in the wire format.
#[derive(Debug, Clone, Copy, PartialEq, Eq, Structural)]
pub enum DataType {
    CodeObject,
    NameObject,
    StringObject,
    IntObject,
    FloatObject,
    BoolObject,
    NullObject,
    BigIntObject,
}

/// The type tag that a byte stands for, if any.
pub open spec fn data_type_of(tag: u8) -> Option<DataType> {
    if tag == 0x00 {
        Some(DataType::CodeObject)
    } else if tag == 0x01 {
        Some(DataType::NameObject)
    } else if tag == 0x02 {
        Some(DataType::StringObject)
    } else if tag == 0x03 {
        Some(DataType::IntObject)
    } else if tag == 0x04 {
        Some(DataType::FloatObject)
    } else if tag == 0x05 {
        Some(DataType::BoolObject)
    } else if tag == 0x06 {
        Some(DataType::NullObject)
    } else if tag == 0x07 {
        Some(DataType::BigIntObject)
    } else {
        None
    }
}

impl DataType {
    /// Decodes a type tag; bytes above 0x07 give `None`.
    pub fn from_byte(tag: u8) -> (r: Option<DataType>)
        ensures
            r == data_type_of(tag),
    {
        match tag {
            0x00 => Some(DataType::CodeObject),
            0x01 => Some(DataType::NameObject),
            0x02 => Some(DataType::StringObject),
            0x03 => Some(DataType::IntObject),
            0x04 => Some(DataType::FloatObject),
            0x05 => Some(DataType::BoolObject),
            0x06 => Some(DataType::NullObject),
            0x07 => Some(DataType::BigIntObject),
            _ => None,
        }
    }
}

/// The header of an artifact.
pub struct CompiledHeader {
    pub version: [u8; 3],
}

/// The character of a decimal digit.
pub open spec fn digit_char(d: nat) -> char {
    if d == 0 {
        '0'
    } else if d == 1 {
        '1'
    } else if d == 2 {
        '2'
    } else if d == 3 {
        '3'
    } else if d == 4 {
        '4'
    } else if d == 5 {
        '5'
    } else if d == 6 {
        '6'
    } else if d == 7 {
        '7'
    } else if d == 8 {
        '8'
    } else {
        '9'
    }
}

/// `n` in decimal, without leading zeros.
pub open spec fn decimal(n: nat) -> Seq<char>
    decreases n,
{
    if n < 10 {
        seq![digit_char(n)]
    } else {
        decimal(n / 10) + seq![digit_char(n % 10)]
    }
}

/// A version as text: the three numbers in decimal, joined by dots.
pub open spec fn version_text(v: Seq<u8>) -> Seq<char> {
    decimal(v[0] as nat) + seq!['.'] + decimal(v[1] as nat) + seq!['.'] + decimal(v[2] as nat)
}

/// Relies on `ToString` for `u8`, which goes through its `Display`: the
/// number in decimal, without leading zeros.
#[verifier::external_body]
fn decimal_string(n: u8) -> (r: String)
    ensures
        r@ == decimal(n as nat),
{
    n.to_string()
}

impl CompiledHeader {
    /// The version as "major.minor.patch".
    pub fn ver_to_str(&self) -> (r: String)
        ensures
            r@ == version_text(self.version@),
    {
        proof {
            reveal_strlit(".");
        }
        let mut text = decimal_string(self.version[0]);
        text.append(".");
        text.append(decimal_string(self.version[1]).as_str());
        text.append(".");
        text.append(decimal_string(self.version[2]).as_str());
        text
    }
}

/// A loaded artifact: its header and its module.
pub struct Artifact {
    pub header: CompiledHeader,
    pub module: IodineObject,
}

/// Reads the string at `pos`.
pub fn read_string(bytes: &[u8], pos: usize) -> (r: Result<(String, usize), LoadError>)
    requires
        pos <= bytes@.len(),
    ensures
        match spec_read_string(bytes@, pos as nat) {
            Ok((t, p)) => r matches Ok((s, q)) && s@ == t && q == p,
            Err(e) => r matches Err(x) && x == e,
        },
{
    let rest = &bytes[pos..bytes.len()];
    proof {
        lemma_uleb128_size(rest@, 0);
    }
    match read_uleb128(rest) {
        None => Err(LoadError::BadLength),
        Some((len, after)) => {
            let start = bytes.len() - after.len();
            if len > (bytes.len() - start) as u64 {
                return Err(LoadError::Truncated);
            }
            let end = start + len as usize;
            let mut raw: Vec<u8> = Vec::new();
            let mut i = start;
            while i < end
                invariant
                    start <= i <= end <= bytes@.len(),
                    raw@ == bytes@.subrange(start as int, i as int),
                decreases end - i,
            {
                raw.push(bytes[i]);
                assert(raw@ =~= bytes@.subrange(start as int, i + 1));
                i = i + 1;
            }
            match string_from_utf8(raw) {
                Some(s) => Ok((s, end)),
                None => Err(LoadError::BadUtf8),
            }
        },
    }
}

/// Reads the constant at `pos`; every null constant is `null` itself.
pub fn read_constant(bytes: &[u8], pos: usize, null: &Arc<IodineObject>) -> (r: Result<
    (Arc<IodineObject>, usize),
    LoadError,
>)
    requires
        pos <= bytes@.len(),
    ensures
        match spec_read_constant(bytes@, pos as nat) {
            Ok((c, p)) => r matches Ok((o, q)) && constant_matches(o, c, *null) && q == p,
            Err(e) => r matches Err(x) && x == e,
        },
{
    if pos >= bytes.len() {
        return Err(LoadError::Truncated);
    }
    let tag = bytes[pos];
    match DataType::from_byte(tag) {
        Some(DataType::NameObject) => match read_string(bytes, pos + 1) {
            Ok((s, q)) => Ok((Arc::new(iodine_name::create(s)), q)),
            Err(e) => Err(e),
        },
        Some(DataType::StringObject) => match read_string(bytes, pos + 1) {
            Ok((s, q)) => Ok((iodine_string::create(s), q)),
            Err(e) => Err(e),
        },
        Some(DataType::NullObject) => Ok((share(null), pos + 1)),
        _ => Err(LoadError::UnknownConstant(tag)),
    }
}

/// Reads the instruction at `pos`.
pub fn read_instruction(bytes: &[u8], pos: usize, null: &Arc<IodineObject>) -> (r: Result<
    (Instruction, usize),
    LoadError,
>)
    requires
        pos <= bytes@.len(),
    ensures
        match spec_read_instruction(bytes@, pos as nat) {
            Ok((m, p)) => r matches Ok((i, q)) && instruction_matches(i, m, *null) && q == p,
            Err(e) => r matches Err(x) && x == e,
        },
{
    if pos >= bytes.len() {
        return Err(LoadError::Truncated);
    }
    let opcode = match Opcode::from_byte(bytes[pos]) {
        Some(op) => op,
        None => {
            return Err(LoadError::UnknownOpcode(bytes[pos]));
        },
    };
    if bytes.len() - pos < 5 {
        return Err(LoadError::Truncated);
    }
    let argument = read_i32_le(&bytes[pos + 1..pos + 5]);
    match read_constant(bytes, pos + 5, null) {
        Err(e) => Err(e),
        Ok((object, p)) => {
            if bytes.len() - p < 4 {
                return Err(LoadError::Truncated);
            }
            Ok((Instruction { opcode, argument, object }, p + 4))
        },
    }
}

/// `rest` with `done` put in front of its instructions.
pub open spec fn after_prefix(
    done: Seq<InstructionModel>,
    rest: Result<(Seq<InstructionModel>, nat), LoadError>,
) -> Result<(Seq<InstructionModel>, nat), LoadError> {
    match rest {
        Ok((s, q)) => Ok((done + s, q)),
        Err(e) => Err(e),
    }
}

/// Reads the code object at `pos`: its count, then its instructions in order.
pub fn read_code_object(bytes: &[u8], pos: usize, null: &Arc<IodineObject>) -> (r: Result<
    (IodineObject, usize),
    LoadError,
>)
    requires
        pos <= bytes@.len(),
    ensures
        match spec_read_code_object(bytes@, pos as nat) {
            Ok((ms, p)) => r matches Ok((c, q)) && code_matches(c, ms, *null) && q == p,
            Err(e) => r matches Err(x) && x == e,
        },
{
    if bytes.len() - pos < 4 {
        return Err(LoadError::Truncated);
    }
    let count = read_u32_le(&bytes[pos..pos + 4]);
    let ghost goal = spec_read_code_object(bytes@, pos as nat);
    let mut instructions: Vec<Instruction> = Vec::new();
    let ghost mut done: Seq<InstructionModel> = Seq::empty();
    let mut p = pos + 4;
    let mut i: u32 = 0;
    assert(done + Seq::<InstructionModel>::empty() =~= done);
    while i < count
        invariant
            p <= bytes@.len(),
            i <= count,
            instructions@.len() == i,
            done.len() == i,
            forall|j: int|
                0 <= j < i ==> instruction_matches(#[trigger] instructions@[j], done[j], *null),
            after_prefix(done, spec_read_instructions(bytes@, p as nat, (count - i) as nat))
                == goal,
            goal == spec_read_instructions(bytes@, (pos + 4) as nat, count as nat),
            goal == spec_read_code_object(bytes@, pos as nat),
        decreases count - i,
    {
        match read_instruction(bytes, p, null) {
            Err(e) => {
                assert(spec_read_instructions(bytes@, p as nat, (count - i) as nat) == Err::<
                    (Seq<InstructionModel>, nat),
                    LoadError,
                >(e));
                return Err(e);
            },
            Ok((ins, q)) => {
                let ghost m = spec_read_instruction(bytes@, p as nat)->Ok_0.0;
                let ghost rest = spec_read_instructions(bytes@, q as nat, (count - i - 1) as nat);
                proof {
                    match rest {
                        Ok((s, _)) => {
                            assert(done + (seq![m] + s) =~= (done + seq![m]) + s);
                        },
                        Err(_) => {},
                    }
                }
                instructions.push(ins);
                proof {
                    done = done + seq![m];
                }
                p = q;
                i = i + 1;
            },
        }
    }
    let code = IodineObject::CodeObject { attribs: AttributeDictionary::new(), instructions };
    Ok((code, p))
}

/// Reads the module at `pos`: its name, a reserved byte, then its code object.
pub fn read_module(bytes: &[u8], pos: usize, null: &Arc<IodineObject>) -> (r: Result<
    (IodineObject, usize),
    LoadError,
>)
    requires
        pos <= bytes@.len(),
    ensures
        match spec_read_module(bytes@, pos as nat) {
            Ok((m, p)) => r matches Ok((o, q)) && module_matches(o, m, *null) && q == p,
            Err(e) => r matches Err(x) && x == e,
        },
{
    let (name, p) = match read_string(bytes, pos) {
        Ok(v) => v,
        Err(e) => {
            return Err(e);
        },
    };
    if p >= bytes.len() {
        return Err(LoadError::Truncated);
    }
    match read_code_object(bytes, p + 1, null) {
        Err(e) => Err(e),
        Ok((code, q)) => Ok((iodine_module::create(name, Box::new(code)), q)),
    }
}

/// Reads the header: checks the magic, keeps the version, skips the
/// reserved bytes.
pub fn read_header(bytes: &[u8]) -> (r: Result<CompiledHeader, LoadError>)
    ensures
        match spec_read_header(bytes@) {
            Ok(v) => r matches Ok(h) && h.version@ == v,
            Err(e) => r matches Err(x) && x == e,
        },
{
    let expected: [u8; 5] = [0x49, 0x4F, 0x57, 0x49, 0x5A];
    assert(expected@ =~= magic());
    let mut i: usize = 0;
    while i < 5 && i < bytes.len()
        invariant
            i <= 5,
            expected@ == magic(),
            forall|j: int| 0 <= j < i ==> j < bytes@.len() && bytes@[j] == magic()[j],
        decreases 5 - i,
    {
        if bytes[i] != expected[i] {
            return Err(LoadError::BadMagic);
        }
        i = i + 1;
    }
    if bytes.len() < 16 {
        return Err(LoadError::Truncated);
    }
    let version: [u8; 3] = [bytes[5], bytes[6], bytes[7]];
    assert(version@ =~= bytes@.subrange(5, 8));
    Ok(CompiledHeader { version })
}

/// Loads an artifact: header, then module. Every null constant in the
/// module is `null` itself.
pub fn load(bytes: &[u8], null: &Arc<IodineObject>) -> (r: Result<Artifact, LoadError>)
    ensures
        match spec_load(bytes@) {
            Ok(m) => r matches Ok(a) && a.header.version@ == m.version && module_matches(
                a.module,
                m.module,
                *null,
            ),
            Err(e) => r matches Err(x) && x == e,
        },
{
    let header = match read_header(bytes) {
        Ok(h) => h,
        Err(e) => {
            return Err(e);
        },
    };
    match read_module(bytes, 16, null) {
        Ok((module, _)) => Ok(Artifact { header, module }),
        Err(e) => Err(e),
    }
}

/// Reading `count` instructions that succeeds yields exactly `count` of them.
pub proof fn read_instructions_count(b: Seq<u8>, pos: nat, count: nat)
    ensures
        spec_read_instructions(b, pos, count) matches Ok((ms, _)) ==> ms.len() == count,
    decreases count,
{
    if count > 0 {
        if let Ok((_, p)) = spec_read_instruction(b, pos) {
            read_instructions_count(b, p, (count - 1) as nat);
        }
    }
}

/// A well-formed artifact loads to a module with exactly as many
/// instructions as the count its code object states: the four bytes that
/// follow the module name and the reserved byte.
pub proof fn loaded_instruction_count(b: Seq<u8>)
    requires
        spec_load(b) is Ok,
    ensures
        ({
            let p = spec_read_string(b, 16)->Ok_0.1;
            &&& p + 5 <= b.len()
            &&& spec_load(b)->Ok_0.module.instructions.len() == le_u32_of(
                b.subrange(p + 1 as int, p + 5 as int),
            )
        }),
{
    let p = spec_read_string(b, 16)->Ok_0.1;
    read_instructions_count(
        b,
        p + 5,
        le_u32_of(b.subrange(p + 1 as int, p + 5 as int)),
    );
}

/// An instruction that reads well has the operand kind that its type tag
/// byte (the sixth byte of the instruction) names: 0x01 a name, 0x02 a
/// string, 0x06 the null; no other tag reads.
pub proof fn operand_follows_tag(b: Seq<u8>, pos: nat)
    requires
        spec_read_instruction(b, pos) is Ok,
    ensures
        ({
            let tag = b[pos + 5 as int];
            let operand = spec_read_instruction(b, pos)->Ok_0.0.operand;
            &&& tag == 0x01 || tag == 0x02 || tag == 0x06
            &&& tag == 0x01 <==> operand is Name
            &&& tag == 0x02 <==> operand is Str
            &&& tag == 0x06 <==> operand is Null
        }),
{
}

/// The instructions of a well-formed artifact, read one after another from
/// where the code object's count ends, are the loaded module's
/// instructions in file order.
pub proof fn loaded_in_file_order(b: Seq<u8>, pos: nat, count: nat, i: nat)
    requires
        spec_read_instructions(b, pos, count) is Ok,
        i < count,
    ensures
        spec_read_instruction(b, pos) is Ok,
        i == 0 ==> spec_read_instructions(b, pos, count)->Ok_0.0[0] == spec_read_instruction(
            b,
            pos,
        )->Ok_0.0,
        i > 0 ==> spec_read_instructions(b, pos, count)->Ok_0.0[i as int]
            == spec_read_instructions(
            b,
            spec_read_instruction(b, pos)->Ok_0.1,
            (count - 1) as nat,
        )->Ok_0.0[i - 1],
{
    read_instructions_count(b, pos, count);
    read_instructions_count(b, spec_read_instruction(b, pos)->Ok_0.1, (count - 1) as nat);
}

} // verus!
