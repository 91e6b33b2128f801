//! The binary module decoder: a pure function from a raw byte buffer to a
//! fully decoded [`Module`]. Every section parser is stated first as a
//! mathematical function over the byte sequence; the executable decoder is
//! proved to return exactly what that function says, and to fail exactly
//! where it says no decode exists.

use crate::error::FormatError;
use crate::instruction::{Instruction, MemArg};
use crate::leb128::{read_i32, read_u32, spec_leb_i32, spec_leb_u32};
use crate::opcode::Opcode;
use crate::types::{FuncType, FuncTypeV, FunctionLocal, ValueType};
use vstd::prelude::*;

verus! {

/// A recognized section code byte: Type is 0x01, Function 0x03 and Code
/// 0x0a. Any other code is unsupported and fatal to the decode.
#[derive(Debug, Clone, Copy, PartialEq, Eq, Structural)]
pub enum SectionCode {
    Type,
    Function,
    Code,
}

impl SectionCode {
    /// The section code byte mapping, as a mathematical function.
    pub open spec fn spec_from_u8(code: u8) -> Option<SectionCode> {
        if code == 0x01 {
            Some(SectionCode::Type)
        } else if code == 0x03 {
            Some(SectionCode::Function)
        } else if code == 0x0a {
            Some(SectionCode::Code)
        } else {
            None
        }
    }

    /// Decodes a section code byte; an unlisted byte is unrecognized.
    pub fn from_u8(code: u8) -> (r: Option<SectionCode>)
        ensures
            r == SectionCode::spec_from_u8(code),
    {
        match code {
            0x01 => Some(SectionCode::Type),
            0x03 => Some(SectionCode::Function),
            0x0a => Some(SectionCode::Code),
            _ => None,
        }
    }
}

/// A code-section entry: the function's run-length-encoded local groups
/// and its decoded instruction sequence, terminated by `End`.
#[derive(Debug, Clone, PartialEq, Eq)]
pub struct Function {
    pub locals: Vec<FunctionLocal>,
    pub code: Vec<Instruction>,
}

/// The mathematical model of a [`Function`].
#[verifier::ext_equal]
pub ghost struct FunctionV {
    pub locals: Seq<FunctionLocal>,
    pub code: Seq<Instruction>,
}

impl View for Function {
    type V = FunctionV;

    open spec fn view(&self) -> FunctionV {
        FunctionV { locals: self.locals@, code: self.code@ }
    }
}

/// The decoded module: the fixed preamble and the three recognized
/// sections, each absent until its section code is observed. Immutable
/// once decoded.
#[derive(Debug, PartialEq, Eq)]
pub struct Module {
    pub magic: String,
    pub version: u32,
    pub type_section: Option<Vec<FuncType>>,
    pub function_section: Option<Vec<u32>>,
    pub code_section: Option<Vec<Function>>,
}

/// The mathematical model of a [`Module`].
#[verifier::ext_equal]
pub ghost struct ModuleV {
    pub magic: Seq<char>,
    pub version: u32,
    pub type_section: Option<Seq<FuncTypeV>>,
    pub function_section: Option<Seq<u32>>,
    pub code_section: Option<Seq<FunctionV>>,
}

/// The models of a list of function signatures, in order.
pub open spec fn func_types_view(v: Seq<FuncType>) -> Seq<FuncTypeV> {
    v.map_values(|ft: FuncType| ft@)
}

/// The models of a list of function bodies, in order.
pub open spec fn functions_view(v: Seq<Function>) -> Seq<FunctionV> {
    v.map_values(|f: Function| f@)
}

impl View for Module {
    type V = ModuleV;

    open spec fn view(&self) -> ModuleV {
        ModuleV {
            magic: self.magic@,
            version: self.version,
            type_section: match self.type_section {
                Some(ts) => Some(func_types_view(ts@)),
                None => None,
            },
            function_section: match self.function_section {
                Some(fs) => Some(fs@),
                None => None,
            },
            code_section: match self.code_section {
                Some(cs) => Some(functions_view(cs@)),
                None => None,
            },
        }
    }
}

impl ModuleV {
    /// The module with no sections: the `\0asm` magic, version 1, and
    /// every section absent.
    pub open spec fn spec_default() -> ModuleV {
        ModuleV {
            magic: "\0asm"@,
            version: 1,
            type_section: None,
            function_section: None,
            code_section: None,
        }
    }
}

/// Decodes a flat run of value-type bytes from `pos` to the end of `s`,
/// appending to `acc`; one unrecognized byte fails the whole run.
pub open spec fn spec_value_types_from(s: Seq<u8>, pos: int, acc: Seq<ValueType>) -> Option<
    Seq<ValueType>,
>
    decreases s.len() - pos,
{
    if pos < 0 {
        None
    } else if pos >= s.len() {
        Some(acc)
    } else {
        match ValueType::spec_from_u8(s[pos]) {
            None => None,
            Some(vt) => spec_value_types_from(s, pos + 1, acc.push(vt)),
        }
    }
}

/// Decodes `n` type-section entries starting at `pos`: each is a form
/// byte, a length-prefixed run of parameter types, and a length-prefixed
/// run of result types. Returns the entries and the position just past
/// them.
pub open spec fn spec_type_entries(s: Seq<u8>, pos: int, n: nat, acc: Seq<FuncTypeV>) -> Option<
    (Seq<FuncTypeV>, int),
>
    decreases n,
{
    if n == 0 {
        Some((acc, pos))
    } else if !(0 <= pos < s.len()) {
        None
    } else {
        match spec_leb_u32(s, pos + 1, 0) {
            None => None,
            Some((psz, p1)) => if !(0 <= p1 && p1 + psz <= s.len()) {
                None
            } else {
                match spec_value_types_from(s.subrange(p1, p1 + psz), 0, Seq::empty()) {
                    None => None,
                    Some(params) => match spec_leb_u32(s, p1 + psz, 0) {
                        None => None,
                        Some((rsz, p2)) => if !(0 <= p2 && p2 + rsz <= s.len()) {
                            None
                        } else {
                            match spec_value_types_from(s.subrange(p2, p2 + rsz), 0, Seq::empty()) {
                                None => None,
                                Some(results) => spec_type_entries(
                                    s,
                                    p2 + rsz,
                                    (n - 1) as nat,
                                    acc.push(FuncTypeV { params, results }),
                                ),
                            }
                        },
                    },
                }
            },
        }
    }
}

/// Decodes a whole type-section content region: an entry count followed
/// by that many entries. Bytes past the counted entries are ignored.
pub open spec fn spec_type_section(s: Seq<u8>) -> Option<Seq<FuncTypeV>> {
    match spec_leb_u32(s, 0, 0) {
        None => None,
        Some((n, p)) => match spec_type_entries(s, p, n as nat, Seq::empty()) {
            None => None,
            Some((ts, _)) => Some(ts),
        },
    }
}

/// Decodes `n` type indices starting at `pos`.
pub open spec fn spec_func_indices(s: Seq<u8>, pos: int, n: nat, acc: Seq<u32>) -> Option<
    (Seq<u32>, int),
>
    decreases n,
{
    if n == 0 {
        Some((acc, pos))
    } else {
        match spec_leb_u32(s, pos, 0) {
            None => None,
            Some((v, p)) => spec_func_indices(s, p, (n - 1) as nat, acc.push(v as u32)),
        }
    }
}

/// Decodes a whole function-section content region: a count followed by
/// that many type indices, in order.
pub open spec fn spec_function_section(s: Seq<u8>) -> Option<Seq<u32>> {
    match spec_leb_u32(s, 0, 0) {
        None => None,
        Some((n, p)) => match spec_func_indices(s, p, n as nat, Seq::empty()) {
            None => None,
            Some((idxs, _)) => Some(idxs),
        },
    }
}

/// Decodes `n` local groups starting at `pos`: each is a repeat count
/// followed by a value-type byte.
pub open spec fn spec_local_groups(s: Seq<u8>, pos: int, n: nat, acc: Seq<FunctionLocal>) -> Option<
    (Seq<FunctionLocal>, int),
>
    decreases n,
{
    if n == 0 {
        Some((acc, pos))
    } else {
        match spec_leb_u32(s, pos, 0) {
            None => None,
            Some((c, p1)) => if !(0 <= p1 < s.len()) {
                None
            } else {
                match ValueType::spec_from_u8(s[p1]) {
                    None => None,
                    Some(vt) => spec_local_groups(
                        s,
                        p1 + 1,
                        (n - 1) as nat,
                        acc.push(FunctionLocal { type_count: c as u32, value_type: vt }),
                    ),
                }
            },
        }
    }
}

/// Decodes the instruction stream starting at `pos`, one instruction at a
/// time, until the first top-level `End`. Returns the instructions (the
/// terminating `End` included) and the position just past the `End`.
pub open spec fn spec_instructions(s: Seq<u8>, pos: int, acc: Seq<Instruction>) -> Option<
    (Seq<Instruction>, int),
>
    decreases s.len() - pos,
{
    if !(0 <= pos < s.len()) {
        None
    } else {
        match Opcode::spec_from_u8(s[pos]) {
            None => None,
            Some(op) => match op {
                Opcode::End => Some((acc.push(Instruction::End), pos + 1)),
                Opcode::I32Add => spec_instructions(s, pos + 1, acc.push(Instruction::I32Add)),
                Opcode::LocalGet => match spec_leb_u32(s, pos + 1, 0) {
                    None => None,
                    Some((v, p1)) => if !(pos < p1 <= s.len()) {
                        None
                    } else {
                        spec_instructions(s, p1, acc.push(Instruction::LocalGet(v as u32)))
                    },
                },
                Opcode::LocalSet => match spec_leb_u32(s, pos + 1, 0) {
                    None => None,
                    Some((v, p1)) => if !(pos < p1 <= s.len()) {
                        None
                    } else {
                        spec_instructions(s, p1, acc.push(Instruction::LocalSet(v as u32)))
                    },
                },
                Opcode::Call => match spec_leb_u32(s, pos + 1, 0) {
                    None => None,
                    Some((v, p1)) => if !(pos < p1 <= s.len()) {
                        None
                    } else {
                        spec_instructions(s, p1, acc.push(Instruction::Call(v as u32)))
                    },
                },
                Opcode::I32Const => match spec_leb_i32(s, pos + 1, 0) {
                    None => None,
                    Some((v, p1)) => if !(pos < p1 <= s.len()) {
                        None
                    } else {
                        spec_instructions(s, p1, acc.push(Instruction::I32Const(v as i32)))
                    },
                },
                Opcode::I32Store => match spec_leb_u32(s, pos + 1, 0) {
                    None => None,
                    Some((a, p1)) => match spec_leb_u32(s, p1, 0) {
                        None => None,
                        Some((o, p2)) => if !(pos < p2 <= s.len()) {
                            None
                        } else {
                            spec_instructions(
                                s,
                                p2,
                                acc.push(
                                    Instruction::I32Store(
                                        MemArg { align: a as u32, offset: o as u32 },
                                    ),
                                ),
                            )
                        },
                    },
                },
            },
        }
    }
}

/// Decodes a whole code-section entry region: the local-group count and
/// groups, then the instruction stream up to its terminating `End`.
pub open spec fn spec_function_body(s: Seq<u8>) -> Option<FunctionV> {
    match spec_leb_u32(s, 0, 0) {
        None => None,
        Some((n, p0)) => match spec_local_groups(s, p0, n as nat, Seq::empty()) {
            None => None,
            Some((locals, p1)) => match spec_instructions(s, p1, Seq::empty()) {
                None => None,
                Some((code, _)) => Some(FunctionV { locals, code }),
            },
        },
    }
}

/// Decodes `n` code-section entries starting at `pos`: each is a byte
/// size followed by exactly that many body bytes.
pub open spec fn spec_code_entries(s: Seq<u8>, pos: int, n: nat, acc: Seq<FunctionV>) -> Option<
    (Seq<FunctionV>, int),
>
    decreases n,
{
    if n == 0 {
        Some((acc, pos))
    } else {
        match spec_leb_u32(s, pos, 0) {
            None => None,
            Some((sz, p1)) => if !(0 <= p1 && p1 + sz <= s.len()) {
                None
            } else {
                match spec_function_body(s.subrange(p1, p1 + sz)) {
                    None => None,
                    Some(body) => spec_code_entries(s, p1 + sz, (n - 1) as nat, acc.push(body)),
                }
            },
        }
    }
}

/// Decodes a whole code-section content region: a count followed by that
/// many sized entries.
pub open spec fn spec_code_section(s: Seq<u8>) -> Option<Seq<FunctionV>> {
    match spec_leb_u32(s, 0, 0) {
        None => None,
        Some((n, p)) => match spec_code_entries(s, p, n as nat, Seq::empty()) {
            None => None,
            Some((fs, _)) => Some(fs),
        },
    }
}

/// Walks the section table from `pos`: each section is a code byte and a
/// size-prefixed content region. A code outside {Type, Function, Code}
/// fails the decode; the walk ends when no bytes remain.
pub open spec fn spec_sections(s: Seq<u8>, pos: int, m: ModuleV) -> Option<ModuleV>
    decreases s.len() - pos,
{
    if pos >= s.len() {
        Some(m)
    } else if pos < 0 {
        None
    } else {
        let code = s[pos];
        match spec_leb_u32(s, pos + 1, 0) {
            None => None,
            Some((sz, p1)) => if !(pos < p1 && 0 <= sz && p1 + sz <= s.len()) {
                None
            } else {
                let content = s.subrange(p1, p1 + sz);
                if code == 1 {
                    match spec_type_section(content) {
                        None => None,
                        Some(ts) => spec_sections(
                            s,
                            p1 + sz,
                            ModuleV { type_section: Some(ts), ..m },
                        ),
                    }
                } else if code == 3 {
                    match spec_function_section(content) {
                        None => None,
                        Some(fs) => spec_sections(
                            s,
                            p1 + sz,
                            ModuleV { function_section: Some(fs), ..m },
                        ),
                    }
                } else if code == 10 {
                    match spec_code_section(content) {
                        None => None,
                        Some(cs) => spec_sections(
                            s,
                            p1 + sz,
                            ModuleV { code_section: Some(cs), ..m },
                        ),
                    }
                } else {
                    None
                }
            },
        }
    }
}

/// The whole decode as a mathematical function: the `\0asm` magic, the
/// version word (only 1 is accepted), then the section table. `None`
/// means the bytes are not a well-formed module in this scope.
pub open spec fn spec_decode(s: Seq<u8>) -> Option<ModuleV> {
    if s.len() < 8 {
        None
    } else if !(s[0] == 0x00 && s[1] == 0x61 && s[2] == 0x73 && s[3] == 0x6d) {
        None
    } else if s[4] + 0x100 * s[5] + 0x1_0000 * s[6] + 0x100_0000 * s[7] != 1 {
        None
    } else {
        spec_sections(s, 8, ModuleV::spec_default())
    }
}

/// Copies the byte region `[start, end)` out of `bytes`.
fn subvec(bytes: &Vec<u8>, start: usize, end: usize) -> (r: Vec<u8>)
    requires
        start <= end <= bytes@.len(),
    ensures
        r@ == bytes@.subrange(start as int, end as int),
{
    let mut r: Vec<u8> = Vec::new();
    let mut i: usize = start;
    while i < end
        invariant
            start <= i <= end <= bytes@.len(),
            r@ == bytes@.subrange(start as int, i as int),
        decreases end - i,
    {
        r.push(bytes[i]);
        proof {
            assert(r@ =~= bytes@.subrange(start as int, i as int + 1));
        }
        i += 1;
    }
    r
}

/// Reads a section header at `pos`: the section code byte and the
/// unsigned varint content size, returning also the position where the
/// content begins.
fn decode_section_header(bytes: &Vec<u8>, pos: usize) -> (r: Result<
    (SectionCode, u32, usize),
    FormatError,
>)
    requires
        pos < bytes@.len(),
    ensures
        match r {
            Ok((code, size, p)) => {
                &&& SectionCode::spec_from_u8(bytes@[pos as int]) == Some(code)
                &&& spec_leb_u32(bytes@, pos as int + 1, 0) == Some::<(int, int)>(
                    (size as int, p as int),
                )
                &&& pos < p <= bytes@.len()
            },
            Err(_) => spec_leb_u32(bytes@, pos as int + 1, 0) is None
                || SectionCode::spec_from_u8(bytes@[pos as int]) is None,
        },
{
    let code_byte = bytes[pos];
    proof {
        assert(pos < bytes.len());
    }
    let (size, p) = match read_u32(bytes, pos + 1) {
        Ok(x) => x,
        Err(e) => {
            return Err(e);
        },
    };
    match SectionCode::from_u8(code_byte) {
        Some(code) => Ok((code, size, p)),
        None => Err(FormatError::UnknownSection(code_byte)),
    }
}

/// Decodes an entire buffer as a flat run of value-type bytes.
fn decode_value_types(bytes: &Vec<u8>) -> (r: Result<Vec<ValueType>, FormatError>)
    ensures
        match r {
            Ok(v) => spec_value_types_from(bytes@, 0, Seq::empty()) == Some(v@),
            Err(_) => spec_value_types_from(bytes@, 0, Seq::empty()) is None,
        },
{
    let mut out: Vec<ValueType> = Vec::new();
    let mut i: usize = 0;
    while i < bytes.len()
        invariant
            i <= bytes@.len(),
            spec_value_types_from(bytes@, 0, Seq::empty()) == spec_value_types_from(
                bytes@,
                i as int,
                out@,
            ),
        decreases bytes@.len() - i,
    {
        match ValueType::from_u8(bytes[i]) {
            None => {
                return Err(FormatError::UnknownValueType(bytes[i]));
            },
            Some(vt) => {
                out.push(vt);
                i += 1;
            },
        }
    }
    Ok(out)
}

/// Decodes a whole type-section content region into the list of function
/// signatures it declares, in order.
fn decode_type_section(bytes: &Vec<u8>) -> (r: Result<Vec<FuncType>, FormatError>)
    ensures
        match r {
            Ok(v) => spec_type_section(bytes@) == Some(func_types_view(v@)),
            Err(_) => spec_type_section(bytes@) is None,
        },
{
    let (count, start) = match read_u32(bytes, 0) {
        Ok(x) => x,
        Err(e) => {
            return Err(e);
        },
    };
    let ghost target = spec_type_entries(bytes@, start as int, count as nat, Seq::empty());
    let mut out: Vec<FuncType> = Vec::new();
    let mut pos: usize = start;
    let mut remaining: u32 = count;
    proof {
        assert(func_types_view(out@) =~= Seq::<FuncTypeV>::empty());
    }
    while remaining > 0
        invariant
            pos <= bytes@.len(),
            spec_leb_u32(bytes@, 0, 0) == Some::<(int, int)>((count as int, start as int)),
            target == spec_type_entries(
                bytes@,
                pos as int,
                remaining as nat,
                func_types_view(out@),
            ),
            target == spec_type_entries(bytes@, start as int, count as nat, Seq::empty()),
        decreases remaining,
    {
        if pos >= bytes.len() {
            return Err(FormatError::UnexpectedEnd);
        }
        let (psz, p1) = match read_u32(bytes, pos + 1) {
            Ok(x) => x,
            Err(e) => {
                return Err(e);
            },
        };
        if (psz as usize) > bytes.len() - p1 {
            return Err(FormatError::UnexpectedEnd);
        }
        let pend = p1 + psz as usize;
        let params_bytes = subvec(bytes, p1, pend);
        let params = match decode_value_types(&params_bytes) {
            Ok(x) => x,
            Err(e) => {
                return Err(e);
            },
        };
        let (rsz, p2) = match read_u32(bytes, pend) {
            Ok(x) => x,
            Err(e) => {
                return Err(e);
            },
        };
        if (rsz as usize) > bytes.len() - p2 {
            return Err(FormatError::UnexpectedEnd);
        }
        let rend = p2 + rsz as usize;
        let results_bytes = subvec(bytes, p2, rend);
        let results = match decode_value_types(&results_bytes) {
            Ok(x) => x,
            Err(e) => {
                return Err(e);
            },
        };
        let ghost old_map = func_types_view(out@);
        out.push(FuncType { params, results });
        proof {
            assert(func_types_view(out@) =~= old_map.push(
                FuncTypeV { params: params@, results: results@ },
            ));
        }
        pos = rend;
        remaining = remaining - 1;
    }
    Ok(out)
}

/// Decodes a whole function-section content region into the list of type
/// indices it declares, in order.
fn decode_function_section(bytes: &Vec<u8>) -> (r: Result<Vec<u32>, FormatError>)
    ensures
        match r {
            Ok(v) => spec_function_section(bytes@) == Some(v@),
            Err(_) => spec_function_section(bytes@) is None,
        },
{
    let (count, start) = match read_u32(bytes, 0) {
        Ok(x) => x,
        Err(e) => {
            return Err(e);
        },
    };
    let ghost target = spec_func_indices(bytes@, start as int, count as nat, Seq::<u32>::empty());
    let mut out: Vec<u32> = Vec::new();
    let mut pos: usize = start;
    let mut remaining: u32 = count;
    while remaining > 0
        invariant
            pos <= bytes@.len(),
            spec_leb_u32(bytes@, 0, 0) == Some::<(int, int)>((count as int, start as int)),
            target == spec_func_indices(bytes@, pos as int, remaining as nat, out@),
            target == spec_func_indices(bytes@, start as int, count as nat, Seq::<u32>::empty()),
        decreases remaining,
    {
        let (idx, p) = match read_u32(bytes, pos) {
            Ok(x) => x,
            Err(e) => {
                return Err(e);
            },
        };
        out.push(idx);
        pos = p;
        remaining = remaining - 1;
    }
    Ok(out)
}

/// Decodes the instruction stream of a function body, starting at
/// `start`, up to and including its terminating `End`.
fn decode_instructions(bytes: &Vec<u8>, start: usize) -> (r: Result<
    (Vec<Instruction>, usize),
    FormatError,
>)
    requires
        start <= bytes@.len(),
    ensures
        match r {
            Ok((v, p)) => spec_instructions(bytes@, start as int, Seq::empty()) == Some(
                (v@, p as int),
            ),
            Err(_) => spec_instructions(bytes@, start as int, Seq::empty()) is None,
        },
{
    let mut out: Vec<Instruction> = Vec::new();
    let mut pos: usize = start;
    loop
        invariant
            pos <= bytes@.len(),
            spec_instructions(bytes@, start as int, Seq::empty()) == spec_instructions(
                bytes@,
                pos as int,
                out@,
            ),
        decreases bytes@.len() - pos,
    {
        if pos >= bytes.len() {
            return Err(FormatError::UnexpectedEnd);
        }
        let b = bytes[pos];
        match Opcode::from_u8(b) {
            None => {
                return Err(FormatError::UnknownOpcode(b));
            },
            Some(Opcode::End) => {
                out.push(Instruction::End);
                return Ok((out, pos + 1));
            },
            Some(Opcode::I32Add) => {
                out.push(Instruction::I32Add);
                pos = pos + 1;
            },
            Some(Opcode::LocalGet) => {
                let (v, p) = match read_u32(bytes, pos + 1) {
                    Ok(x) => x,
                    Err(e) => {
                        return Err(e);
                    },
                };
                out.push(Instruction::LocalGet(v));
                pos = p;
            },
            Some(Opcode::LocalSet) => {
                let (v, p) = match read_u32(bytes, pos + 1) {
                    Ok(x) => x,
                    Err(e) => {
                        return Err(e);
                    },
                };
                out.push(Instruction::LocalSet(v));
                pos = p;
            },
            Some(Opcode::Call) => {
                let (v, p) = match read_u32(bytes, pos + 1) {
                    Ok(x) => x,
                    Err(e) => {
                        return Err(e);
                    },
                };
                out.push(Instruction::Call(v));
                pos = p;
            },
            Some(Opcode::I32Const) => {
                let (v, p) = match read_i32(bytes, pos + 1) {
                    Ok(x) => x,
                    Err(e) => {
                        return Err(e);
                    },
                };
                out.push(Instruction::I32Const(v));
                pos = p;
            },
            Some(Opcode::I32Store) => {
                let (a, p1) = match read_u32(bytes, pos + 1) {
                    Ok(x) => x,
                    Err(e) => {
                        return Err(e);
                    },
                };
                let (o, p2) = match read_u32(bytes, p1) {
                    Ok(x) => x,
                    Err(e) => {
                        return Err(e);
                    },
                };
                out.push(Instruction::I32Store(MemArg { align: a, offset: o }));
                pos = p2;
            },
        }
    }
}

/// Decodes one code-section entry region: the local groups, then the
/// instruction stream.
fn decode_function_body(bytes: &Vec<u8>) -> (r: Result<Function, FormatError>)
    ensures
        match r {
            Ok(f) => spec_function_body(bytes@) == Some(f@),
            Err(_) => spec_function_body(bytes@) is None,
        },
{
    let (count, start) = match read_u32(bytes, 0) {
        Ok(x) => x,
        Err(e) => {
            return Err(e);
        },
    };
    let ghost target = spec_local_groups(
        bytes@,
        start as int,
        count as nat,
        Seq::<FunctionLocal>::empty(),
    );
    let mut locals: Vec<FunctionLocal> = Vec::new();
    let mut pos: usize = start;
    let mut remaining: u32 = count;
    while remaining > 0
        invariant
            pos <= bytes@.len(),
            spec_leb_u32(bytes@, 0, 0) == Some::<(int, int)>((count as int, start as int)),
            target == spec_local_groups(bytes@, pos as int, remaining as nat, locals@),
            target == spec_local_groups(
                bytes@,
                start as int,
                count as nat,
                Seq::<FunctionLocal>::empty(),
            ),
        decreases remaining,
    {
        let (c, p1) = match read_u32(bytes, pos) {
            Ok(x) => x,
            Err(e) => {
                return Err(e);
            },
        };
        if p1 >= bytes.len() {
            return Err(FormatError::UnexpectedEnd);
        }
        let vt = match ValueType::from_u8(bytes[p1]) {
            None => {
                return Err(FormatError::UnknownValueType(bytes[p1]));
            },
            Some(vt) => vt,
        };
        locals.push(FunctionLocal { type_count: c, value_type: vt });
        pos = p1 + 1;
        remaining = remaining - 1;
    }
    let (code, _) = match decode_instructions(bytes, pos) {
        Ok(x) => x,
        Err(e) => {
            return Err(e);
        },
    };
    Ok(Function { locals, code })
}

/// Decodes a whole code-section content region into the list of function
/// bodies it declares, in order.
fn decode_code_section(bytes: &Vec<u8>) -> (r: Result<Vec<Function>, FormatError>)
    ensures
        match r {
            Ok(v) => spec_code_section(bytes@) == Some(functions_view(v@)),
            Err(_) => spec_code_section(bytes@) is None,
        },
{
    let (count, start) = match read_u32(bytes, 0) {
        Ok(x) => x,
        Err(e) => {
            return Err(e);
        },
    };
    let ghost target = spec_code_entries(bytes@, start as int, count as nat, Seq::empty());
    let mut out: Vec<Function> = Vec::new();
    let mut pos: usize = start;
    let mut remaining: u32 = count;
    proof {
        assert(functions_view(out@) =~= Seq::<FunctionV>::empty());
    }
    while remaining > 0
        invariant
            pos <= bytes@.len(),
            spec_leb_u32(bytes@, 0, 0) == Some::<(int, int)>((count as int, start as int)),
            target == spec_code_entries(
                bytes@,
                pos as int,
                remaining as nat,
                functions_view(out@),
            ),
            target == spec_code_entries(bytes@, start as int, count as nat, Seq::empty()),
        decreases remaining,
    {
        let (sz, p1) = match read_u32(bytes, pos) {
            Ok(x) => x,
            Err(e) => {
                return Err(e);
            },
        };
        if (sz as usize) > bytes.len() - p1 {
            return Err(FormatError::UnexpectedEnd);
        }
        let end = p1 + sz as usize;
        let body_bytes = subvec(bytes, p1, end);
        let body = match decode_function_body(&body_bytes) {
            Ok(x) => x,
            Err(e) => {
                return Err(e);
            },
        };
        let ghost old_map = functions_view(out@);
        out.push(body);
        proof {
            assert(functions_view(out@) =~= old_map.push(body@));
        }
        pos = end;
        remaining = remaining - 1;
    }
    Ok(out)
}

impl Default for Module {
    /// The module every decode starts from: magic `\0asm`, version 1, no
    /// sections.
    fn default() -> (r: Self)
        ensures
            r@ == ModuleV::spec_default(),
    {
        Module {
            magic: "\0asm".to_owned(),
            version: 1,
            type_section: None,
            function_section: None,
            code_section: None,
        }
    }
}

impl Module {
    /// Decodes a binary module. Returns `Ok` exactly when the bytes are a
    /// well-formed module in this scope, and then returns exactly the
    /// module [`spec_decode`] describes; decoding reads nothing but its
    /// argument and changes nothing.
    pub fn decode(bytes: &Vec<u8>) -> (r: Result<Module, FormatError>)
        ensures
            match r {
                Ok(m) => spec_decode(bytes@) == Some(m@),
                Err(_) => spec_decode(bytes@) is None,
            },
    {
        if bytes.len() < 8 {
            return Err(FormatError::BadMagic);
        }
        if !(bytes[0] == 0x00 && bytes[1] == 0x61 && bytes[2] == 0x73 && bytes[3] == 0x6d) {
            return Err(FormatError::BadMagic);
        }
        let version: u32 = bytes[4] as u32 + 0x100 * bytes[5] as u32 + 0x1_0000 * bytes[6] as u32
            + 0x100_0000 * bytes[7] as u32;
        if version != 1 {
            return Err(FormatError::BadVersion);
        }
        let mut module = Module::default();
        let ghost init = module@;
        let mut pos: usize = 8;
        while pos < bytes.len()
            invariant
                8 <= pos <= bytes@.len(),
                init == ModuleV::spec_default(),
                spec_decode(bytes@) == spec_sections(bytes@, 8, init),
                spec_sections(bytes@, 8, init) == spec_sections(bytes@, pos as int, module@),
            decreases bytes@.len() - pos,
        {
            let (code, sz, p1) = match decode_section_header(bytes, pos) {
                Ok(x) => x,
                Err(e) => {
                    return Err(e);
                },
            };
            if (sz as usize) > bytes.len() - p1 {
                return Err(FormatError::UnexpectedEnd);
            }
            let end = p1 + sz as usize;
            let content = subvec(bytes, p1, end);
            match code {
                SectionCode::Type => {
                    let ts = match decode_type_section(&content) {
                        Ok(x) => x,
                        Err(e) => {
                            return Err(e);
                        },
                    };
                    module.type_section = Some(ts);
                },
                SectionCode::Function => {
                    let fs = match decode_function_section(&content) {
                        Ok(x) => x,
                        Err(e) => {
                            return Err(e);
                        },
                    };
                    module.function_section = Some(fs);
                },
                SectionCode::Code => {
                    let cs = match decode_code_section(&content) {
                        Ok(x) => x,
                        Err(e) => {
                            return Err(e);
                        },
                    };
                    module.code_section = Some(cs);
                },
            }
            pos = end;
        }
        Ok(module)
    }

    /// Decodes a binary module; the public entry point around
    /// [`Module::decode`].
    pub fn new(bytes: &Vec<u8>) -> (r: Result<Module, FormatError>)
        ensures
            match r {
                Ok(m) => spec_decode(bytes@) == Some(m@),
                Err(_) => spec_decode(bytes@) is None,
            },
    {
        Module::decode(bytes)
    }
}

/// Decoding is deterministic and side-effect-free: a decode depends on
/// nothing but its input bytes and changes nothing, so any two modules
/// the decoder returns for equal byte sequences are structurally equal.
/// ([`Module::decode`] ensures each returned module models
/// [`spec_decode`] of its input, from which this equality follows.)
pub proof fn lemma_decode_deterministic(b1: Seq<u8>, b2: Seq<u8>, m1: ModuleV, m2: ModuleV)
    requires
        b1 == b2,
        spec_decode(b1) == Some(m1),
        spec_decode(b2) == Some(m2),
    ensures
        m1 == m2,
{
}

} // verus!
