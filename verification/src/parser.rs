//! Reading one line of a program text: from its words to a statement.

use crate::assembler::{
    address_bytes,
    address_target,
    extended_opcode,
    extended_statement,
    fixed_shape,
    fixed_statement,
    immediate_mark,
    is_immediate,
    is_wide,
    operation_name,
    operation_named,
    register_operand,
    statement,
    stem,
    stripped,
    wide_mark,
    AssembleError,
    Shape,
    Statement,
};
use crate::bytes::{u16_to_be, u32_to_be, u64_to_be};
use crate::instruction::Operation;
use crate::text::{parse_signed, parse_unsigned, views, word_ends_with, word_is};
use vstd::prelude::*;
use vstd::slice::{slice_subrange, slice_to_vec};

verus! {

/// A statement as the assembler holds it.
pub struct Line {
    pub label: Option<Vec<char>>,
    pub code: Vec<u8>,
    pub target: Option<Vec<char>>,
}

/// What an optional name holds.
pub open spec fn name_view(name: Option<Vec<char>>) -> Option<Seq<char>> {
    match name {
        Some(chars) => Some(chars@),
        None => None,
    }
}

impl View for Line {
    type V = Statement;

    open spec fn view(&self) -> Statement {
        Statement {
            label: name_view(self.label),
            code: self.code@,
            target: name_view(self.target),
        }
    }
}

/// Looks up the name of an operation.
pub fn find_operation(name: &[char]) -> (found: Option<Operation>)
    ensures
        found == operation_named(name@),
{
    if word_is(name, "copy") {
        Some(Operation::Copy)
    } else if word_is(name, "not") {
        Some(Operation::Not)
    } else if word_is(name, "neg") {
        Some(Operation::Neg)
    } else if word_is(name, "reverse") {
        Some(Operation::Reverse)
    } else if word_is(name, "numzeros") {
        Some(Operation::Numzeros)
    } else if word_is(name, "numones") {
        Some(Operation::Numones)
    } else if word_is(name, "and") {
        Some(Operation::And)
    } else if word_is(name, "or") {
        Some(Operation::Or)
    } else if word_is(name, "xor") {
        Some(Operation::Xor)
    } else if word_is(name, "shl") {
        Some(Operation::Shl)
    } else if word_is(name, "shlm") {
        Some(Operation::Shlm)
    } else if word_is(name, "shr") {
        Some(Operation::Shr)
    } else if word_is(name, "shrm") {
        Some(Operation::Shrm)
    } else if word_is(name, "rotl") {
        Some(Operation::Rotl)
    } else if word_is(name, "rotr") {
        Some(Operation::Rotr)
    } else if word_is(name, "addc") {
        Some(Operation::Addc)
    } else if word_is(name, "addm") {
        Some(Operation::Addm)
    } else if word_is(name, "subc") {
        Some(Operation::Subc)
    } else if word_is(name, "subm") {
        Some(Operation::Subm)
    } else if word_is(name, "absdiff") {
        Some(Operation::Absdiff)
    } else if word_is(name, "mulc") {
        Some(Operation::Mulc)
    } else if word_is(name, "mulm") {
        Some(Operation::Mulm)
    } else if word_is(name, "div") {
        Some(Operation::Div)
    } else if word_is(name, "mod") {
        Some(Operation::Mod)
    } else if word_is(name, "powm") {
        Some(Operation::Powm)
    } else if word_is(name, "powc") {
        Some(Operation::Powc)
    } else if word_is(name, "gt") {
        Some(Operation::Gt)
    } else if word_is(name, "ge") {
        Some(Operation::Ge)
    } else if word_is(name, "lt") {
        Some(Operation::Lt)
    } else if word_is(name, "le") {
        Some(Operation::Le)
    } else if word_is(name, "eq") {
        Some(Operation::Eq)
    } else if word_is(name, "ne") {
        Some(Operation::Ne)
    } else {
        None
    }
}

/// Looks up a mnemonic with a fixed encoding.
pub fn find_shape(mnemonic: &[char]) -> (found: Option<Shape>)
    ensures
        found == fixed_shape(mnemonic@),
{
    if word_is(mnemonic, "output") {
        Some(Shape { base: 0x00, register: true, address: false })
    } else if word_is(mnemonic, "outputw") {
        Some(Shape { base: 0x10, register: true, address: false })
    } else if word_is(mnemonic, "loadmem") {
        Some(Shape { base: 0x20, register: true, address: true })
    } else if word_is(mnemonic, "loadmemw") {
        Some(Shape { base: 0x30, register: true, address: true })
    } else if word_is(mnemonic, "storemem") {
        Some(Shape { base: 0x40, register: true, address: true })
    } else if word_is(mnemonic, "storememw") {
        Some(Shape { base: 0x50, register: true, address: true })
    } else if word_is(mnemonic, "jmp") {
        Some(Shape { base: 0x60, register: false, address: true })
    } else if word_is(mnemonic, "jo") {
        Some(Shape { base: 0x70, register: true, address: true })
    } else {
        None
    }
}

/// Reads the register operand at index `k`.
pub fn parse_register(operands: &Vec<&[char]>, k: usize) -> (r: Result<u8, AssembleError>)
    ensures
        r == register_operand(views(operands@), k as int),
{
    if k >= operands.len() {
        return Err(AssembleError::MissingOperand);
    }
    let operand = operands[k];
    if operand.len() == 0 || operand[0] != 'r' {
        return Err(AssembleError::InvalidRegister);
    }
    let number = slice_subrange(operand, 1, operand.len());
    match parse_unsigned(number, 255) {
        Some(n) => Ok(n as u8),
        None => Err(AssembleError::InvalidNumber),
    }
}

/// Reads an address operand: the two address bytes it gives at once, and
/// the label it names where it is no number.
pub fn parse_address(operand: &[char]) -> (r: ([u8; 2], Option<Vec<char>>))
    ensures
        r.0@ == address_bytes(operand@),
        name_view(r.1) == address_target(operand@),
{
    match parse_signed(operand, 0x7fff) {
        Some((negative, magnitude)) => {
            let value: u16 = if negative {
                (0x1_0000 - magnitude) as u16
            } else {
                magnitude as u16
            };
            (u16_to_be(value), None)
        },
        None => {
            let bytes = [0u8, 0u8];
            (bytes, Some(slice_to_vec(operand)))
        },
    }
}

/// Reads the operands of an instruction with a fixed encoding.
pub fn parse_fixed(shape: Shape, operands: &Vec<&[char]>) -> (r: Result<Line, AssembleError>)
    ensures
        match r {
            Ok(line) => fixed_statement(shape, views(operands@)) == Ok::<Statement, AssembleError>(
                line@,
            ),
            Err(e) => fixed_statement(shape, views(operands@)) == Err::<Statement, AssembleError>(e),
        },
{
    let mut register: u8 = 0;
    let mut k: usize = 1;
    if shape.register {
        match parse_register(operands, 1) {
            Ok(r) => {
                register = r;
            },
            Err(e) => {
                return Err(e);
            },
        }
        k = 2;
    }
    let mut code: Vec<u8> = Vec::new();
    code.push(shape.base | register);
    if !shape.address {
        let line = Line { label: None, code, target: None };
        return Ok(line);
    }
    if k >= operands.len() {
        return Err(AssembleError::MissingOperand);
    }
    let operand = operands[k];
    let (bytes, target) = parse_address(operand);
    code.push(bytes[0]);
    code.push(bytes[1]);
    let line = Line { label: None, code, target };
    assert(line@.code =~= seq![shape.base | register] + address_bytes(operand@));
    Ok(line)
}

/// Reads the operands of an instruction of the extended family.
pub fn parse_extended(operands: &Vec<&[char]>) -> (r: Result<Line, AssembleError>)
    requires
        operands@.len() > 0,
    ensures
        match r {
            Ok(line) => extended_statement(views(operands@)) == Ok::<Statement, AssembleError>(
                line@,
            ),
            Err(e) => extended_statement(views(operands@)) == Err::<Statement, AssembleError>(e),
        },
{
    let mnemonic = operands[0];
    let w = ['w'];
    let imm = ['i', 'm', 'm'];
    assert(w@ =~= wide_mark());
    let mut name = mnemonic;
    let outer = word_ends_with(name, w.as_slice());
    if outer {
        name = slice_subrange(name, 0, name.len() - 1);
    }
    let immediate = word_ends_with(name, imm.as_slice());
    if immediate {
        name = slice_subrange(name, 0, name.len() - 3);
    }
    let inner = !outer && word_ends_with(name, w.as_slice());
    if inner {
        name = slice_subrange(name, 0, name.len() - 1);
    }
    let wide = outer || inner;
    let op = match find_operation(name) {
        Some(op) => op,
        None => {
            return Err(AssembleError::UnknownOperation);
        },
    };
    let mut opcode: u8 = 0x80 + op.to_code();
    proof {
        op.lemma_code_selects();
    }
    if wide {
        opcode = opcode + 0x20;
    }
    if immediate {
        opcode = opcode + 0x40;
    }
    let a = match parse_register(operands, 1) {
        Ok(a) => a,
        Err(e) => {
            return Err(e);
        },
    };
    let b = match parse_register(operands, 2) {
        Ok(b) => b,
        Err(e) => {
            return Err(e);
        },
    };
    let mut code: Vec<u8> = Vec::new();
    code.push(opcode);
    code.push((a << 4u8) | b);
    let ghost head = seq![opcode, (a << 4u8) | b];
    assert(code@ =~= head);
    if !immediate {
        return Ok(Line { label: None, code, target: None });
    }
    if 3 >= operands.len() {
        return Err(AssembleError::MissingOperand);
    }
    let operand = operands[3];
    if wide {
        match parse_unsigned(operand, u64::MAX) {
            Some(value) => {
                let bytes = u64_to_be(value);
                let mut i: usize = 0;
                while i < 8
                    invariant
                        i <= 8,
                        code@ == head + bytes@.take(i as int),
                    decreases 8 - i,
                {
                    code.push(bytes[i]);
                    i = i + 1;
                }
                assert(bytes@.take(8) =~= bytes@);
                Ok(Line { label: None, code, target: None })
            },
            None => Err(AssembleError::InvalidNumber),
        }
    } else {
        match parse_unsigned(operand, 0xffff_ffff) {
            Some(value) => {
                let bytes = u32_to_be(value as u32);
                let mut i: usize = 0;
                while i < 4
                    invariant
                        i <= 4,
                        code@ == head + bytes@.take(i as int),
                    decreases 4 - i,
                {
                    code.push(bytes[i]);
                    i = i + 1;
                }
                assert(bytes@.take(4) =~= bytes@);
                Ok(Line { label: None, code, target: None })
            },
            None => Err(AssembleError::InvalidNumber),
        }
    }
}

/// Reads the words of one line.
pub fn parse_statement(operands: &Vec<&[char]>) -> (r: Result<Line, AssembleError>)
    ensures
        match r {
            Ok(line) => statement(views(operands@)) == Ok::<Statement, AssembleError>(line@),
            Err(e) => statement(views(operands@)) == Err::<Statement, AssembleError>(e),
        },
{
    if operands.len() == 0 {
        let line = Line { label: None, code: Vec::new(), target: None };
        return Ok(line);
    }
    let first = operands[0];
    if first.len() > 0 && first[first.len() - 1] == ':' {
        let name = slice_subrange(first, 0, first.len() - 1);
        let line = Line { label: Some(slice_to_vec(name)), code: Vec::new(), target: None };
        return Ok(line);
    }
    match find_shape(first) {
        Some(shape) => parse_fixed(shape, operands),
        None => parse_extended(operands),
    }
}

} // verus!
