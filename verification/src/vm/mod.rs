//! The stack-VM instruction model, its parser, the direct interpreter and
//! the lowering to CPU instructions.

pub mod jack_vm;
pub mod lowering;

pub use crate::parser::parse;
pub use jack_vm::JackVM;
pub use lowering::{lowered_len, vm2asm};



use vstd::prelude::*;

verus! {

/// A named region of VM memory.
#[derive(Debug, Clone, Copy, PartialEq, Eq, Structural)]
pub enum Segment {
    This,
    That,
    Local,
    Argument,
    Static,
    Pointer,
    Temp,
}

/// One instruction of the Hack VM language.  `Goto`, `IfGoto` and `Call`
/// carry resolved instruction indices; `Call` keeps the argument count
/// written at the call site.
#[derive(Debug, Clone, PartialEq, Eq)]
pub enum VMInstruction {
    Push(Segment, i16),
    Pop(Segment, i16),
    PushConst(i16),
    Add,
    Sub,
    Neg,
    Eq,
    Gt,
    Lt,
    And,
    Or,
    Not,
    Label(String),
    Goto(usize),
    IfGoto(usize),
    Function(String, usize),
    Call(usize, usize),
    Return,
}

/// The mathematical reading of a VM instruction, names as sequences.
pub ghost enum VMInstructionV {
    Push(Segment, i16),
    Pop(Segment, i16),
    PushConst(i16),
    Add,
    Sub,
    Neg,
    Eq,
    Gt,
    Lt,
    And,
    Or,
    Not,
    Label(Seq<char>),
    Goto(nat),
    IfGoto(nat),
    Function(Seq<char>, nat),
    Call(nat, nat),
    Return,
}

impl View for VMInstruction {
    type V = VMInstructionV;

    open spec fn view(&self) -> VMInstructionV {
        match self {
            VMInstruction::Push(seg, i) => VMInstructionV::Push(*seg, *i),
            VMInstruction::Pop(seg, i) => VMInstructionV::Pop(*seg, *i),
            VMInstruction::PushConst(k) => VMInstructionV::PushConst(*k),
            VMInstruction::Add => VMInstructionV::Add,
            VMInstruction::Sub => VMInstructionV::Sub,
            VMInstruction::Neg => VMInstructionV::Neg,
            VMInstruction::Eq => VMInstructionV::Eq,
            VMInstruction::Gt => VMInstructionV::Gt,
            VMInstruction::Lt => VMInstructionV::Lt,
            VMInstruction::And => VMInstructionV::And,
            VMInstruction::Or => VMInstructionV::Or,
            VMInstruction::Not => VMInstructionV::Not,
            VMInstruction::Label(s) => VMInstructionV::Label(s@),
            VMInstruction::Goto(a) => VMInstructionV::Goto(*a as nat),
            VMInstruction::IfGoto(a) => VMInstructionV::IfGoto(*a as nat),
            VMInstruction::Function(s, n) => VMInstructionV::Function(s@, *n as nat),
            VMInstruction::Call(a, n) => VMInstructionV::Call(*a as nat, *n as nat),
            VMInstruction::Return => VMInstructionV::Return,
        }
    }
}

/// The views of an instruction list.
pub open spec fn instrs_view(v: Seq<VMInstruction>) -> Seq<VMInstructionV> {
    v.map_values(|i: VMInstruction| i@)
}

/// An exact copy of an instruction.
pub fn dup_instruction(i: &VMInstruction) -> (r: VMInstruction)
    ensures
        r == *i,
{
    match i {
        VMInstruction::Push(seg, k) => VMInstruction::Push(*seg, *k),
        VMInstruction::Pop(seg, k) => VMInstruction::Pop(*seg, *k),
        VMInstruction::PushConst(k) => VMInstruction::PushConst(*k),
        VMInstruction::Add => VMInstruction::Add,
        VMInstruction::Sub => VMInstruction::Sub,
        VMInstruction::Neg => VMInstruction::Neg,
        VMInstruction::Eq => VMInstruction::Eq,
        VMInstruction::Gt => VMInstruction::Gt,
        VMInstruction::Lt => VMInstruction::Lt,
        VMInstruction::And => VMInstruction::And,
        VMInstruction::Or => VMInstruction::Or,
        VMInstruction::Not => VMInstruction::Not,
        VMInstruction::Label(s) => VMInstruction::Label(s.clone()),
        VMInstruction::Goto(a) => VMInstruction::Goto(*a),
        VMInstruction::IfGoto(a) => VMInstruction::IfGoto(*a),
        VMInstruction::Function(s, n) => VMInstruction::Function(s.clone(), *n),
        VMInstruction::Call(a, n) => VMInstruction::Call(*a, *n),
        VMInstruction::Return => VMInstruction::Return,
    }
}

} // verus!
