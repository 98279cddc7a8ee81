//! The mathematical semantics of generation.  `gen_macro` defines, as a
//! total spec function, what one macro activation appends to the output
//! stream and how far it advances the mark counter.  `None` marks the inputs
//! on which generation is undefined: an internal-consistency fault that an
//! upstream validation pass rules out (a missing definition, label or
//! argument binding, an argument-count mismatch), or an invocation chain
//! deeper than the given fuel.  Every input a validated, acyclic program can
//! present has some fuel for which the result is `Some`.

use vstd::prelude::*;

use crate::ast::{Definition, Instruction, Invoke, MacroDef, MacroStatement};
use crate::items::{AsmV, GenErr, OP_JUMPDEST, OP_PUSH0};
use crate::labels::lookup_scopes;

verus! {

/// What one activation yields: the items it appends and the counter after
/// it, or the first error met, with the counter where generation aborted.
pub type GenOutcome = Option<(Result<Seq<AsmV>, GenErr>, nat)>;

/// Lowers one instruction in the given argument bindings and label scope.
/// Pure: no recursion, no state change, no mark allocation.
pub open spec fn lower_spec(
    args: Map<Seq<char>, AsmV>,
    scopes: Seq<Map<Seq<char>, nat>>,
    allow_push0: bool,
    i: Instruction,
) -> Option<Result<AsmV, GenErr>> {
    match i {
        Instruction::Op(op) => Some(Ok(AsmV::Op(op))),
        Instruction::VariablePush(v) => if v.spec_is_zero() && allow_push0 {
            Some(Ok(AsmV::Op(OP_PUSH0)))
        } else {
            Some(Ok(AsmV::Push(v)))
        },
        Instruction::LabelReference(n) => match lookup_scopes(scopes, n@) {
            Some(m) => Some(Ok(AsmV::MarkRef(m))),
            None => None,
        },
        Instruction::ConstantReference(n) => Some(Err(GenErr::ConstantReference(n@))),
        Instruction::MacroArgReference(n) => if args.contains_key(n@) {
            Some(Ok(args[n@]))
        } else {
            None
        },
    }
}

/// Lowers the supplied argument expressions of an invocation, in order, in
/// the caller's context; the first error stops the walk.
pub open spec fn lower_args(
    args: Map<Seq<char>, AsmV>,
    scopes: Seq<Map<Seq<char>, nat>>,
    allow_push0: bool,
    iargs: Seq<Instruction>,
    j: int,
) -> Option<Result<Seq<AsmV>, GenErr>>
    decreases iargs.len() - j,
{
    if j < 0 || j >= iargs.len() {
        Some(Ok(Seq::empty()))
    } else {
        match lower_spec(args, scopes, allow_push0, iargs[j]) {
            None => None,
            Some(Err(e)) => Some(Err(e)),
            Some(Ok(a)) => match lower_args(args, scopes, allow_push0, iargs, j + 1) {
                None => None,
                Some(Err(e)) => Some(Err(e)),
                Some(Ok(rest)) => Some(Ok(seq![a] + rest)),
            },
        }
    }
}

/// How many label definitions stand in the body at or after position `i`.
pub open spec fn label_count(body: Seq<MacroStatement>, i: int) -> nat
    decreases body.len() - i,
{
    if i < 0 || i >= body.len() {
        0
    } else {
        (if body[i] matches MacroStatement::LabelDefinition(_) {
            1nat
        } else {
            0nat
        }) + label_count(body, i + 1)
    }
}

/// The pre-pass over a body: walking the statements from position `i` with
/// counter `c`, it allocates one mark per label definition, in order, and
/// registers it in the namespace accumulated in `acc`.
pub open spec fn prepass_map(
    body: Seq<MacroStatement>,
    i: int,
    c: nat,
    acc: Map<Seq<char>, nat>,
) -> Map<Seq<char>, nat>
    decreases body.len() - i,
{
    if i < 0 || i >= body.len() {
        acc
    } else {
        match body[i] {
            MacroStatement::LabelDefinition(n) => prepass_map(body, i + 1, (c + 1) as nat, acc.insert(n@, c)),
            _ => prepass_map(body, i + 1, c, acc),
        }
    }
}

/// The argument-binding map of one activation: declared names paired with
/// the caller-supplied values, a later duplicate name shadowing an earlier.
pub open spec fn bind_map(names: Seq<String>, vals: Seq<AsmV>) -> Map<Seq<char>, AsmV>
    decreases names.len(),
{
    if names.len() == 0 || vals.len() == 0 {
        Map::empty()
    } else {
        bind_map(names.drop_last(), vals.drop_last()).insert(names.last()@, vals.last())
    }
}

/// One macro activation: builds the binding map, runs the pre-pass to
/// register this body's labels in a fresh namespace, then emits the body.
pub open spec fn gen_macro(
    defs: Map<Seq<char>, Definition>,
    m: MacroDef,
    argvals: Seq<AsmV>,
    c: nat,
    scopes: Seq<Map<Seq<char>, nat>>,
    allow_push0: bool,
    fuel: nat,
) -> GenOutcome
    decreases fuel, m.body@.len() + 1,
{
    if m.args@.len() != argvals.len() {
        None
    } else {
        gen_stmts(
            defs,
            m.body@,
            0,
            bind_map(m.args@, argvals),
            (c + label_count(m.body@, 0)) as nat,
            scopes.push(prepass_map(m.body@, 0, c, Map::empty())),
            allow_push0,
            fuel,
        )
    }
}

/// The emission pass from statement `i` on: what the head statement yields,
/// then the rest of the body, appended in order; the first error aborts.
pub open spec fn gen_stmts(
    defs: Map<Seq<char>, Definition>,
    body: Seq<MacroStatement>,
    i: int,
    args: Map<Seq<char>, AsmV>,
    c: nat,
    scopes: Seq<Map<Seq<char>, nat>>,
    allow_push0: bool,
    fuel: nat,
) -> GenOutcome
    decreases fuel, body.len() - i,
{
    if i < 0 || i >= body.len() {
        Some((Ok(Seq::empty()), c))
    } else {
        match gen_stmt(defs, body[i], args, c, scopes, allow_push0, fuel) {
            None => None,
            Some((Err(e), c2)) => Some((Err(e), c2)),
            Some((Ok(items), c2)) => match gen_stmts(
                defs,
                body,
                i + 1,
                args,
                c2,
                scopes,
                allow_push0,
                fuel,
            ) {
                None => None,
                Some((Err(e), c3)) => Some((Err(e), c3)),
                Some((Ok(rest), c3)) => Some((Ok(items + rest), c3)),
            },
        }
    }
}

/// What one statement yields.  A label definition emits its mark followed by
/// the jump-destination opcode; an invocation of a macro lowers the supplied
/// arguments in the caller's context and expands the target in place; an
/// invocation of any other kind is the unsupported-invocation error; a bare
/// instruction is lowered as one item.
pub open spec fn gen_stmt(
    defs: Map<Seq<char>, Definition>,
    stmt: MacroStatement,
    args: Map<Seq<char>, AsmV>,
    c: nat,
    scopes: Seq<Map<Seq<char>, nat>>,
    allow_push0: bool,
    fuel: nat,
) -> GenOutcome
    decreases fuel, 0int,
{
    match stmt {
        MacroStatement::LabelDefinition(n) => match lookup_scopes(scopes, n@) {
            Some(mk) => Some((Ok(seq![AsmV::Mark(mk), AsmV::Op(OP_JUMPDEST)]), c)),
            None => None,
        },
        MacroStatement::Instruction(instr) => match lower_spec(args, scopes, allow_push0, instr) {
            None => None,
            Some(Err(e)) => Some((Err(e), c)),
            Some(Ok(a)) => Some((Ok(seq![a]), c)),
        },
        MacroStatement::Invoke(inv) => match inv {
            Invoke::Builtin { name } => Some((Err(GenErr::UnsupportedInvoke(name@)), c)),
            Invoke::Macro { name, args: iargs } => if !defs.contains_key(name@) {
                None
            } else {
                match defs[name@] {
                    Definition::Macro(target) => match lower_args(
                        args,
                        scopes,
                        allow_push0,
                        iargs@,
                        0,
                    ) {
                        None => None,
                        Some(Err(e)) => Some((Err(e), c)),
                        Some(Ok(vals)) => if fuel == 0 {
                            None
                        } else {
                            gen_macro(defs, target, vals, c, scopes, allow_push0, (fuel - 1) as nat)
                        },
                    },
                    _ => None,
                }
            },
        },
    }
}

/// The whole pass: a fresh empty scope stack and no argument bindings.
pub open spec fn gen_entry(
    defs: Map<Seq<char>, Definition>,
    entry: MacroDef,
    c0: nat,
    allow_push0: bool,
    fuel: nat,
) -> GenOutcome {
    gen_macro(defs, entry, Seq::empty(), c0, Seq::empty(), allow_push0, fuel)
}

/// Whether generation is defined on this input: some invocation depth
/// suffices and no internal-consistency fault is reachable.
pub open spec fn gen_entry_defined(
    defs: Map<Seq<char>, Definition>,
    entry: MacroDef,
    c0: nat,
    allow_push0: bool,
) -> bool {
    exists|fuel: nat| gen_entry(defs, entry, c0, allow_push0, fuel).is_some()
}

/// A depth that suffices for this input, when one exists.
pub open spec fn gen_entry_fuel(
    defs: Map<Seq<char>, Definition>,
    entry: MacroDef,
    c0: nat,
    allow_push0: bool,
) -> nat {
    choose|fuel: nat| gen_entry(defs, entry, c0, allow_push0, fuel).is_some()
}

/// The outcome of the whole pass on an input on which it is defined.
pub open spec fn gen_entry_result(
    defs: Map<Seq<char>, Definition>,
    entry: MacroDef,
    c0: nat,
    allow_push0: bool,
) -> (Result<Seq<AsmV>, GenErr>, nat) {
    match gen_entry(defs, entry, c0, allow_push0, gen_entry_fuel(defs, entry, c0, allow_push0)) {
        Some(r) => r,
        None => (Ok(Seq::empty()), c0),
    }
}

/// The counter an outcome carries.
pub open spec fn outcome_counter(g: GenOutcome) -> nat {
    match g {
        Some((_, c)) => c,
        None => 0,
    }
}

/// Appends already-emitted items in front of what a suffix of the walk
/// yields; errors and the counter pass through.
pub open spec fn combine_prefix(emitted: Seq<AsmV>, suffix: GenOutcome) -> GenOutcome {
    match suffix {
        None => None,
        Some((Ok(rest), cf)) => Some((Ok(emitted + rest), cf)),
        Some((Err(e), cf)) => Some((Err(e), cf)),
    }
}

/// The same, for the lowering of an invocation's arguments.
pub open spec fn combine_lowered(
    pre: Seq<AsmV>,
    rest: Option<Result<Seq<AsmV>, GenErr>>,
) -> Option<Result<Seq<AsmV>, GenErr>> {
    match rest {
        None => None,
        Some(Err(e)) => Some(Err(e)),
        Some(Ok(r)) => Some(Ok(pre + r)),
    }
}

/// Shifting one head's items out of a nested combination.
pub proof fn lemma_combine_shift(emitted: Seq<AsmV>, items: Seq<AsmV>, rest: GenOutcome)
    ensures
        combine_prefix(emitted, combine_prefix(items, rest)) == combine_prefix(
            emitted + items,
            rest,
        ),
{
    match rest {
        None => {},
        Some((Ok(r), cf)) => {
            assert(emitted + (items + r) =~= (emitted + items) + r);
        },
        Some((Err(_), _)) => {},
    }
}

/// The same shift for argument lowering.
pub proof fn lemma_combine_lowered_shift(
    pre: Seq<AsmV>,
    one: Seq<AsmV>,
    rest: Option<Result<Seq<AsmV>, GenErr>>,
)
    ensures
        combine_lowered(pre, combine_lowered(one, rest)) == combine_lowered(pre + one, rest),
{
    match rest {
        None => {},
        Some(Ok(r)) => {
            assert(pre + (one + r) =~= (pre + one) + r);
        },
        Some(Err(_)) => {},
    }
}

/// The mark counter never moves backward through an activation.
pub proof fn lemma_gen_macro_counter_mono(
    defs: Map<Seq<char>, Definition>,
    m: MacroDef,
    argvals: Seq<AsmV>,
    c: nat,
    scopes: Seq<Map<Seq<char>, nat>>,
    allow_push0: bool,
    fuel: nat,
)
    ensures
        gen_macro(defs, m, argvals, c, scopes, allow_push0, fuel).is_some() ==> c
            <= outcome_counter(gen_macro(defs, m, argvals, c, scopes, allow_push0, fuel)),
    decreases fuel, m.body@.len() + 1,
{
    if m.args@.len() == argvals.len() {
        lemma_gen_stmts_counter_mono(
            defs,
            m.body@,
            0,
            bind_map(m.args@, argvals),
            (c + label_count(m.body@, 0)) as nat,
            scopes.push(prepass_map(m.body@, 0, c, Map::empty())),
            allow_push0,
            fuel,
        );
    }
}

/// The mark counter never moves backward through an emission walk.
pub proof fn lemma_gen_stmts_counter_mono(
    defs: Map<Seq<char>, Definition>,
    body: Seq<MacroStatement>,
    i: int,
    args: Map<Seq<char>, AsmV>,
    c: nat,
    scopes: Seq<Map<Seq<char>, nat>>,
    allow_push0: bool,
    fuel: nat,
)
    ensures
        gen_stmts(defs, body, i, args, c, scopes, allow_push0, fuel).is_some() ==> c
            <= outcome_counter(gen_stmts(defs, body, i, args, c, scopes, allow_push0, fuel)),
    decreases fuel, body.len() - i,
{
    if 0 <= i < body.len() {
        lemma_gen_stmt_counter_mono(defs, body[i], args, c, scopes, allow_push0, fuel);
        match gen_stmt(defs, body[i], args, c, scopes, allow_push0, fuel) {
            Some((Ok(_), c2)) => {
                lemma_gen_stmts_counter_mono(defs, body, i + 1, args, c2, scopes, allow_push0, fuel);
            },
            _ => {},
        }
    }
}

/// The mark counter never moves backward through one statement.
pub proof fn lemma_gen_stmt_counter_mono(
    defs: Map<Seq<char>, Definition>,
    stmt: MacroStatement,
    args: Map<Seq<char>, AsmV>,
    c: nat,
    scopes: Seq<Map<Seq<char>, nat>>,
    allow_push0: bool,
    fuel: nat,
)
    ensures
        gen_stmt(defs, stmt, args, c, scopes, allow_push0, fuel).is_some() ==> c
            <= outcome_counter(gen_stmt(defs, stmt, args, c, scopes, allow_push0, fuel)),
    decreases fuel, 0int,
{
    match stmt {
        MacroStatement::Invoke(Invoke::Macro { name, args: iargs }) => {
            if defs.contains_key(name@) {
                match defs[name@] {
                    Definition::Macro(target) => {
                        match lower_args(args, scopes, allow_push0, iargs@, 0) {
                            Some(Ok(vals)) => {
                                if fuel > 0 {
                                    lemma_gen_macro_counter_mono(
                                        defs,
                                        target,
                                        vals,
                                        c,
                                        scopes,
                                        allow_push0,
                                        (fuel - 1) as nat,
                                    );
                                }
                            },
                            _ => {},
                        }
                    },
                    _ => {},
                }
            }
        },
        _ => {},
    }
}

} // verus!
