//! A verified core of the Hack computer toolchain: assembler, machine-code
//! codec, CPU emulator, stack-VM parser and lowering, HDL netlist parser,
//! and test-script readers.

pub mod cpu;
pub mod hdl;
pub mod lexer;
pub mod parser;
pub mod test;
pub mod test_script;
pub mod text;
pub mod token_stream;
pub mod vm;

pub use parser::parse;
pub use vm::JackVM;
pub use vm::Segment;
pub use vm::VMInstruction as Instruction;

