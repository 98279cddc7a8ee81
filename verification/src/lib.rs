//! Code-generation backend of a macro-based assembly-language compiler that
//! targets a stack-machine bytecode.  Given a table of top-level definitions
//! and a chosen entry-point macro, it produces a flat sequence of intermediate
//! assembly items — concrete opcodes, symbolic marks, and references to marks —
//! ready for a final-pass assembler to resolve into byte offsets.

pub mod ast;
pub mod bindings;
pub mod generate;
pub mod items;
pub mod labels;
pub mod laws;
pub mod marks;
pub mod semantics;
pub mod table;

pub use ast::{Definition, Instruction, Invoke, MacroDef, MacroStatement};
pub use generate::{generate_for_entrypoint, instruction_to_asm};
pub use items::{Asm, AsmV, CompileConfig, CompileError, GenErr, U256, OP_JUMPDEST, OP_PUSH0};
pub use labels::LabelStack;
pub use marks::MarkTracker;
pub use table::Definitions;
