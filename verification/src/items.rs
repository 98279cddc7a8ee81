//! Output items of the generator, and the small value types they carry.

use vstd::prelude::*;

verus! {

/// The opcode byte of the JUMPDEST instruction.  Every label's mark is
/// emitted immediately before one, so that the label's target is always a
/// valid jump destination.
pub const OP_JUMPDEST: u8 = 0x5b;

/// The opcode byte of the dedicated single-byte zero-push instruction.
pub const OP_PUSH0: u8 = 0x5f;

/// A 256-bit unsigned literal, held as four 64-bit limbs, least significant
/// first.
#[derive(Clone, Copy, PartialEq, Eq, Structural, Debug)]
pub struct U256 {
    pub limb0: u64,
    pub limb1: u64,
    pub limb2: u64,
    pub limb3: u64,
}

impl U256 {
    /// The value is zero exactly when all four limbs are zero; a zero value
    /// is the one whose minimal byte representation is empty.
    pub open spec fn spec_is_zero(self) -> bool {
        self.limb0 == 0 && self.limb1 == 0 && self.limb2 == 0 && self.limb3 == 0
    }

    pub fn from_u64(v: u64) -> (r: U256)
        ensures
            r == (U256 { limb0: v, limb1: 0, limb2: 0, limb3: 0 }),
    {
        U256 { limb0: v, limb1: 0, limb2: 0, limb3: 0 }
    }

    pub fn zero() -> (r: U256)
        ensures
            r.spec_is_zero(),
    {
        U256::from_u64(0)
    }

    pub fn is_zero(&self) -> (r: bool)
        ensures
            r == self.spec_is_zero(),
    {
        self.limb0 == 0 && self.limb1 == 0 && self.limb2 == 0 && self.limb3 == 0
    }
}

/// One element of the generated stream: a concrete opcode, a minimal-width
/// push of a literal, a mark definition (the immediately following item is
/// the target of that mark), or a not-yet-resolved reference to a mark.
#[derive(Clone, Copy, PartialEq, Eq, Structural, Debug)]
pub enum Asm {
    /// A concrete opcode, passed through to the final assembler unchanged.
    Op(u8),
    /// The minimal-width push opcode sized to the value's byte length,
    /// carrying the value.  A zero value stands for a push of width zero.
    Push(U256),
    /// Declares that the next item is the target of this mark id.
    Mark(usize),
    /// A forward or backward jump target, resolved downstream.
    MarkRef(usize),
}

/// The mathematical model of one output item; mark ids are unbounded here.
pub enum AsmV {
    Op(u8),
    Push(U256),
    Mark(nat),
    MarkRef(nat),
}

impl View for Asm {
    type V = AsmV;

    open spec fn view(&self) -> AsmV {
        match *self {
            Asm::Op(op) => AsmV::Op(op),
            Asm::Push(v) => AsmV::Push(v),
            Asm::Mark(m) => AsmV::Mark(m as nat),
            Asm::MarkRef(m) => AsmV::MarkRef(m as nat),
        }
    }
}

/// The model of a whole stream.
pub open spec fn view_seq(s: Seq<Asm>) -> Seq<AsmV> {
    Seq::new(s.len(), |i: int| s[i]@)
}

/// Configuration of one generation pass.
#[derive(Clone, Copy, Debug)]
pub struct CompileConfig {
    /// When set, a literal push of the value zero is lowered to the dedicated
    /// single-byte zero-push opcode instead of a zero-width general push.
    pub allow_push0: bool,
}

/// The first failure met during generation; the stream produced so far is
/// discarded.
#[derive(Clone, Debug, PartialEq, Eq)]
pub enum CompileError {
    /// The named invocation target is not a macro; no other target kind can
    /// be lowered by this core.
    UnsupportedInvoke(String),
    /// An instruction references the named constant; constants are not
    /// resolvable by this core.
    ConstantReference(String),
}

/// The mathematical model of a generation error.
pub enum GenErr {
    UnsupportedInvoke(Seq<char>),
    ConstantReference(Seq<char>),
}

impl View for CompileError {
    type V = GenErr;

    open spec fn view(&self) -> GenErr {
        match self {
            CompileError::UnsupportedInvoke(n) => GenErr::UnsupportedInvoke(n@),
            CompileError::ConstantReference(n) => GenErr::ConstantReference(n@),
        }
    }
}

} // verus!
