//! A small arithmetic language: a parser producing expression trees, a
//! bytecode compiler lowering trees to a linear instruction stream with
//! a constant pool, a stack-based virtual machine executing that stream,
//! and a tree-walking evaluator as an interface peer of the machine.
//! Every stage's behaviour is stated in its contract and proved; the two
//! execution engines are proved to agree.
pub mod ast;
pub mod bytecode;
pub mod equivalence;
pub mod errors;
pub mod float_bits;
pub mod interpreter;
pub mod opcode;
pub mod parser;
pub mod primitive;
pub mod vm;
