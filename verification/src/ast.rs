//! The parsed, name-resolved program tree that generation consumes.

use vstd::prelude::*;

use crate::items::U256;

verus! {

/// One AST-level instruction inside a macro body.
#[derive(Clone, Debug)]
pub enum Instruction {
    /// A raw opcode byte, passed through unchanged.
    Op(u8),
    /// A variable-width literal push of an unsigned value.
    VariablePush(U256),
    /// A reference to a label visible from the current activation.
    LabelReference(String),
    /// A reference to a named constant; never resolvable by this core.
    ConstantReference(String),
    /// A reference to an argument of the enclosing macro.
    MacroArgReference(String),
}

/// An invocation statement's target.
#[derive(Clone, Debug)]
pub enum Invoke {
    /// Invocation of a macro definition, with the argument expressions to be
    /// lowered in the caller's context.
    Macro { name: String, args: Vec<Instruction> },
    /// Invocation of any non-macro target kind (a built-in, a table);
    /// generation fails on it with an unsupported-invocation error.
    Builtin { name: String },
}

/// One statement of a macro body; statement order is the sole source of
/// emission order.
#[derive(Clone, Debug)]
pub enum MacroStatement {
    /// Defines a label at this point of the body.
    LabelDefinition(String),
    /// Invokes another definition.
    Invoke(Invoke),
    /// A bare instruction.
    Instruction(Instruction),
}

/// A macro definition: declared argument names, in declaration order, and an
/// ordered body.  Immutable once parsed; it may be invoked any number of
/// times with different argument bindings.
#[derive(Clone, Debug)]
pub struct MacroDef {
    pub name: String,
    pub args: Vec<String>,
    pub body: Vec<MacroStatement>,
}

/// One entry of the global definition table.
#[derive(Clone, Debug)]
pub enum Definition {
    /// A macro, the only definition kind this core can expand.
    Macro(MacroDef),
    /// A named constant; present in the table but not resolvable here.
    Constant { name: String, value: U256 },
}

} // verus!
