//! The library's stated laws, proved against the semantics of
//! `crate::semantics`.

use vstd::prelude::*;

use crate::ast::{Definition, Instruction, Invoke, MacroDef, MacroStatement};
use crate::items::{AsmV, U256, OP_PUSH0};
use crate::labels::lookup_scopes;
use crate::semantics::{
    bind_map, gen_entry, gen_entry_defined, gen_entry_fuel, gen_entry_result, gen_macro, gen_stmt,
    gen_stmts, label_count, lower_args, lower_spec, prepass_map,
};

verus! {

// ------------------------------------------------------------------
// Determinism.  The semantics carries an explicit invocation depth; these
// lemmas show the depth is irrelevant once it suffices, so the outcome is a
// function of the definition table, the entry macro, the allocator's start
// and the configuration alone — two passes over independent allocators
// started at the same value agree item for item.
// ------------------------------------------------------------------

/// More fuel never changes a defined activation outcome.
pub proof fn lemma_gen_macro_fuel_mono(
    defs: Map<Seq<char>, Definition>,
    m: MacroDef,
    argvals: Seq<AsmV>,
    c: nat,
    scopes: Seq<Map<Seq<char>, nat>>,
    allow_push0: bool,
    f1: nat,
    f2: nat,
)
    requires
        f1 <= f2,
        gen_macro(defs, m, argvals, c, scopes, allow_push0, f1).is_some(),
    ensures
        gen_macro(defs, m, argvals, c, scopes, allow_push0, f2) == gen_macro(
            defs,
            m,
            argvals,
            c,
            scopes,
            allow_push0,
            f1,
        ),
    decreases f1, m.body@.len() + 1,
{
    if m.args@.len() == argvals.len() {
        lemma_gen_stmts_fuel_mono(
            defs,
            m.body@,
            0,
            bind_map(m.args@, argvals),
            (c + label_count(m.body@, 0)) as nat,
            scopes.push(prepass_map(m.body@, 0, c, Map::empty())),
            allow_push0,
            f1,
            f2,
        );
    }
}

/// More fuel never changes a defined emission walk.
pub proof fn lemma_gen_stmts_fuel_mono(
    defs: Map<Seq<char>, Definition>,
    body: Seq<MacroStatement>,
    i: int,
    args: Map<Seq<char>, AsmV>,
    c: nat,
    scopes: Seq<Map<Seq<char>, nat>>,
    allow_push0: bool,
    f1: nat,
    f2: nat,
)
    requires
        f1 <= f2,
        gen_stmts(defs, body, i, args, c, scopes, allow_push0, f1).is_some(),
    ensures
        gen_stmts(defs, body, i, args, c, scopes, allow_push0, f2) == gen_stmts(
            defs,
            body,
            i,
            args,
            c,
            scopes,
            allow_push0,
            f1,
        ),
    decreases f1, body.len() - i,
{
    if 0 <= i < body.len() {
        lemma_gen_stmt_fuel_mono(defs, body[i], args, c, scopes, allow_push0, f1, f2);
        match gen_stmt(defs, body[i], args, c, scopes, allow_push0, f1) {
            Some((Ok(_), c2)) => {
                lemma_gen_stmts_fuel_mono(defs, body, i + 1, args, c2, scopes, allow_push0, f1, f2);
            },
            _ => {},
        }
    }
}

/// More fuel never changes a defined statement outcome.
pub proof fn lemma_gen_stmt_fuel_mono(
    defs: Map<Seq<char>, Definition>,
    stmt: MacroStatement,
    args: Map<Seq<char>, AsmV>,
    c: nat,
    scopes: Seq<Map<Seq<char>, nat>>,
    allow_push0: bool,
    f1: nat,
    f2: nat,
)
    requires
        f1 <= f2,
        gen_stmt(defs, stmt, args, c, scopes, allow_push0, f1).is_some(),
    ensures
        gen_stmt(defs, stmt, args, c, scopes, allow_push0, f2) == gen_stmt(
            defs,
            stmt,
            args,
            c,
            scopes,
            allow_push0,
            f1,
        ),
    decreases f1, 0int,
{
    match stmt {
        MacroStatement::Invoke(Invoke::Macro { name, args: iargs }) => {
            if defs.contains_key(name@) {
                match defs[name@] {
                    Definition::Macro(target) => {
                        match lower_args(args, scopes, allow_push0, iargs@, 0) {
                            Some(Ok(vals)) => {
                                assert(f1 > 0);
                                lemma_gen_macro_fuel_mono(
                                    defs,
                                    target,
                                    vals,
                                    c,
                                    scopes,
                                    allow_push0,
                                    (f1 - 1) as nat,
                                    (f2 - 1) as nat,
                                );
                            },
                            _ => {},
                        }
                    },
                    _ => {},
                }
            }
        },
        _ => {},
    }
}

/// Determinism: on any input on which generation is defined, every
/// sufficient depth yields the one canonical outcome, so generating twice
/// from the same table, entry macro, allocator start and configuration
/// yields identical streams.
pub proof fn lemma_generation_deterministic(
    defs: Map<Seq<char>, Definition>,
    entry: MacroDef,
    c0: nat,
    allow_push0: bool,
    fuel: nat,
)
    requires
        gen_entry(defs, entry, c0, allow_push0, fuel).is_some(),
    ensures
        gen_entry(defs, entry, c0, allow_push0, fuel) == Some(
            gen_entry_result(defs, entry, c0, allow_push0),
        ),
{
    assert(gen_entry_defined(defs, entry, c0, allow_push0));
    let fz = gen_entry_fuel(defs, entry, c0, allow_push0);
    assert(gen_entry(defs, entry, c0, allow_push0, fz).is_some());
    if fuel <= fz {
        lemma_gen_macro_fuel_mono(
            defs,
            entry,
            Seq::empty(),
            c0,
            Seq::empty(),
            allow_push0,
            fuel,
            fz,
        );
    } else {
        lemma_gen_macro_fuel_mono(
            defs,
            entry,
            Seq::empty(),
            c0,
            Seq::empty(),
            allow_push0,
            fz,
            fuel,
        );
    }
}

// ------------------------------------------------------------------
// The pre-pass registers every label of a body before any code of the body
// is emitted.
// ------------------------------------------------------------------

/// The pre-pass only adds entries: a name no remaining label definition
/// carries keeps its binding.
pub proof fn lemma_prepass_preserves(
    body: Seq<MacroStatement>,
    i: int,
    c: nat,
    acc: Map<Seq<char>, nat>,
    key: Seq<char>,
)
    requires
        forall|k: int|
            i <= k < body.len() ==> (#[trigger] body[k] matches MacroStatement::LabelDefinition(n)
                ==> n@ != key),
        acc.contains_key(key),
    ensures
        prepass_map(body, i, c, acc).contains_key(key),
        prepass_map(body, i, c, acc)[key] == acc[key],
    decreases body.len() - i,
{
    if 0 <= i < body.len() {
        match body[i] {
            MacroStatement::LabelDefinition(n) => {
                lemma_prepass_preserves(body, i + 1, (c + 1) as nat, acc.insert(n@, c), key);
            },
            _ => {
                lemma_prepass_preserves(body, i + 1, c, acc, key);
            },
        }
    }
}

/// Whether a body defines the given label name at or after position `i`.
pub open spec fn defines_label(body: Seq<MacroStatement>, i: int, name: Seq<char>) -> bool {
    exists|k: int|
        i <= k < body.len() && (#[trigger] body[k] matches MacroStatement::LabelDefinition(n)
            && n@ == name)
}

/// Every label a body defines is registered by the pre-pass.
pub proof fn lemma_prepass_contains(
    body: Seq<MacroStatement>,
    i: int,
    c: nat,
    acc: Map<Seq<char>, nat>,
    name: Seq<char>,
)
    requires
        0 <= i,
        defines_label(body, i, name),
    ensures
        prepass_map(body, i, c, acc).contains_key(name),
    decreases body.len() - i,
{
    if i < body.len() {
        match body[i] {
            MacroStatement::LabelDefinition(n) => {
                if n@ == name {
                    if defines_label(body, i + 1, name) {
                        lemma_prepass_contains(body, i + 1, (c + 1) as nat, acc.insert(n@, c), name);
                    } else {
                        lemma_prepass_preserves(body, i + 1, (c + 1) as nat, acc.insert(n@, c), name);
                    }
                } else {
                    assert(defines_label(body, i + 1, name));
                    lemma_prepass_contains(body, i + 1, (c + 1) as nat, acc.insert(n@, c), name);
                }
            },
            _ => {
                assert(defines_label(body, i + 1, name));
                lemma_prepass_contains(body, i + 1, c, acc, name);
            },
        }
    }
}

/// Forward-reference correctness: every statement of a body is emitted
/// against the same scope stack, whose innermost namespace the pre-pass has
/// already completed; so a label reference standing before the label's
/// textual definition lowers to the very same mark reference as one standing
/// after it — lowering a reference does not depend on the statement's
/// position, only on the completed namespace.
pub proof fn lemma_forward_reference(
    args: Map<Seq<char>, AsmV>,
    outer: Seq<Map<Seq<char>, nat>>,
    body: Seq<MacroStatement>,
    c: nat,
    allow_push0: bool,
    name: String,
)
    requires
        defines_label(body, 0, name@),
    ensures
        ({
            let ns = prepass_map(body, 0, c, Map::empty());
            &&& ns.contains_key(name@)
            &&& lower_spec(
                args,
                outer.push(ns),
                allow_push0,
                Instruction::LabelReference(name),
            ) == Some(Ok::<AsmV, crate::items::GenErr>(AsmV::MarkRef(ns[name@])))
        }),
{
    let ns = prepass_map(body, 0, c, Map::empty());
    lemma_prepass_contains(body, 0, c, Map::empty(), name@);
    assert(outer.push(ns).last() == ns);
    assert(lookup_scopes(outer.push(ns), name@) == Some(ns[name@]));
}

// ------------------------------------------------------------------
// Scope isolation.
// ------------------------------------------------------------------

/// A label defined inside an invocation is never resolvable from the
/// statements after it: whatever namespaces the callee pushed are popped
/// when its activation ends, and a following reference to a name absent from
/// the enclosing chain faults generation instead of resolving — even when
/// the macro just invoked defines a label of exactly that name.
pub proof fn lemma_scope_isolation(
    defs: Map<Seq<char>, Definition>,
    body: Seq<MacroStatement>,
    i: int,
    args: Map<Seq<char>, AsmV>,
    c: nat,
    scopes: Seq<Map<Seq<char>, nat>>,
    allow_push0: bool,
    fuel: nat,
    name: String,
)
    requires
        0 <= i,
        i + 1 < body.len(),
        body[i] matches MacroStatement::Invoke(_),
        body[i + 1] == MacroStatement::Instruction(Instruction::LabelReference(name)),
        lookup_scopes(scopes, name@) is None,
    ensures
        !(gen_stmts(defs, body, i, args, c, scopes, allow_push0, fuel) matches Some((Ok(_), _))),
{
    match gen_stmt(defs, body[i], args, c, scopes, allow_push0, fuel) {
        Some((Ok(_), c2)) => {
            assert(lower_spec(args, scopes, allow_push0, Instruction::LabelReference(name))
                is None);
            assert(gen_stmt(defs, body[i + 1], args, c2, scopes, allow_push0, fuel) is None);
            assert(gen_stmts(defs, body, i + 1, args, c2, scopes, allow_push0, fuel) is None);
        },
        _ => {},
    }
}

// ------------------------------------------------------------------
// The zero-push optimization.
// ------------------------------------------------------------------

/// Lowering a literal zero yields the dedicated zero-push opcode exactly
/// when the configuration flag is set, and the general minimal-width push of
/// the zero value (of byte length zero) otherwise.
pub proof fn lemma_zero_push(
    args: Map<Seq<char>, AsmV>,
    scopes: Seq<Map<Seq<char>, nat>>,
    v: U256,
)
    requires
        v.spec_is_zero(),
    ensures
        lower_spec(args, scopes, true, Instruction::VariablePush(v)) == Some(
            Ok::<AsmV, crate::items::GenErr>(AsmV::Op(OP_PUSH0)),
        ),
        lower_spec(args, scopes, false, Instruction::VariablePush(v)) == Some(
            Ok::<AsmV, crate::items::GenErr>(AsmV::Push(v)),
        ),
{
}

// ------------------------------------------------------------------
// Argument pass-through.
// ------------------------------------------------------------------

/// Invoking a macro with an argument that is itself a label reference, and
/// referencing that argument inside the callee, yields exactly the item the
/// caller's own reference to the label yields — the same resolved mark —
/// whatever scope stack the callee is emitted under.
pub proof fn lemma_argument_passthrough(
    caller_args: Map<Seq<char>, AsmV>,
    caller_scopes: Seq<Map<Seq<char>, nat>>,
    callee_args: Map<Seq<char>, AsmV>,
    callee_scopes: Seq<Map<Seq<char>, nat>>,
    allow_push0: bool,
    arg_name: String,
    label_name: String,
)
    requires
        lookup_scopes(caller_scopes, label_name@).is_some(),
        callee_args.contains_key(arg_name@),
        Some(Ok::<AsmV, crate::items::GenErr>(callee_args[arg_name@])) == lower_spec(
            caller_args,
            caller_scopes,
            allow_push0,
            Instruction::LabelReference(label_name),
        ),
    ensures
        lower_spec(
            callee_args,
            callee_scopes,
            allow_push0,
            Instruction::MacroArgReference(arg_name),
        ) == lower_spec(
            caller_args,
            caller_scopes,
            allow_push0,
            Instruction::LabelReference(label_name),
        ),
{
}

// ------------------------------------------------------------------
// Mark uniqueness.  On a successful pass, the emitted mark definitions
// carry exactly the ids the allocator issued — each exactly once — and
// every mark reference resolves to exactly one of them.
// ------------------------------------------------------------------

/// How many mark-definition items with this id the stream holds.
pub open spec fn count_mark_defs(items: Seq<AsmV>, mk: nat) -> nat
    decreases items.len(),
{
    if items.len() == 0 {
        0
    } else {
        count_mark_defs(items.drop_last(), mk) + (if items.last() == AsmV::Mark(mk) {
            1nat
        } else {
            0nat
        })
    }
}

/// A one-item stream holds one mark definition of an id exactly when that
/// item is it.
pub proof fn lemma_count_one(a: AsmV, mk: nat)
    ensures
        count_mark_defs(seq![a], mk) == (if a == AsmV::Mark(mk) {
            1nat
        } else {
            0nat
        }),
{
    assert(seq![a].drop_last() =~= Seq::<AsmV>::empty());
    assert(count_mark_defs(Seq::<AsmV>::empty(), mk) == 0);
    assert(seq![a].last() == a);
}

/// The same, for a two-item stream.
pub proof fn lemma_count_two(a: AsmV, b: AsmV, mk: nat)
    ensures
        count_mark_defs(seq![a, b], mk) == (if a == AsmV::Mark(mk) {
            1nat
        } else {
            0nat
        }) + (if b == AsmV::Mark(mk) {
            1nat
        } else {
            0nat
        }),
{
    assert(seq![a, b].drop_last() =~= seq![a]);
    lemma_count_one(a, mk);
    assert(seq![a, b].last() == b);
}

/// Mark-definition counts add up over concatenation.
pub proof fn lemma_count_append(a: Seq<AsmV>, b: Seq<AsmV>, mk: nat)
    ensures
        count_mark_defs(a + b, mk) == count_mark_defs(a, mk) + count_mark_defs(b, mk),
    decreases b.len(),
{
    if b.len() == 0 {
        assert(a + b =~= a);
    } else {
        assert((a + b).drop_last() =~= a + b.drop_last());
        lemma_count_append(a, b.drop_last(), mk);
    }
}

/// Every mark reference of the stream lies in the given id range.
pub open spec fn refs_in(items: Seq<AsmV>, lo: nat, hi: nat) -> bool {
    forall|k: int|
        0 <= k < items.len() ==> match #[trigger] items[k] {
            AsmV::MarkRef(m) => lo <= m < hi,
            _ => true,
        }
}

/// An argument value is never a mark definition, and any mark reference it
/// carries lies in the given range.
pub open spec fn arg_items_ok(vals: Seq<AsmV>, lo: nat, hi: nat) -> bool {
    forall|k: int|
        0 <= k < vals.len() ==> match #[trigger] vals[k] {
            AsmV::MarkRef(m) => lo <= m < hi,
            AsmV::Mark(_) => false,
            _ => true,
        }
}

/// The same, for a binding map.
pub open spec fn args_map_ok(args: Map<Seq<char>, AsmV>, lo: nat, hi: nat) -> bool {
    forall|key: Seq<char>|
        #[trigger] args.contains_key(key) ==> match args[key] {
            AsmV::MarkRef(m) => lo <= m < hi,
            AsmV::Mark(_) => false,
            _ => true,
        }
}

/// Every mark a namespace of the stack holds lies in the given range.
pub open spec fn scopes_in(scopes: Seq<Map<Seq<char>, nat>>, lo: nat, hi: nat) -> bool {
    forall|si: int, key: Seq<char>|
        0 <= si < scopes.len() && #[trigger] scopes[si].contains_key(key) ==> lo <= scopes[si][key]
            < hi
}

/// The values of a namespace lie in the given range.
pub open spec fn map_vals_in(m: Map<Seq<char>, nat>, lo: nat, hi: nat) -> bool {
    forall|key: Seq<char>| #[trigger] m.contains_key(key) ==> lo <= m[key] < hi
}

/// A resolved label is a mark some namespace of the stack holds.
pub proof fn lemma_lookup_in(
    scopes: Seq<Map<Seq<char>, nat>>,
    name: Seq<char>,
    lo: nat,
    hi: nat,
)
    requires
        scopes_in(scopes, lo, hi),
    ensures
        lookup_scopes(scopes, name) matches Some(m) ==> lo <= m < hi,
    decreases scopes.len(),
{
    if scopes.len() > 0 {
        if scopes.last().contains_key(name) {
            assert(scopes[scopes.len() - 1].contains_key(name));
        } else {
            assert(scopes_in(scopes.drop_last(), lo, hi));
            lemma_lookup_in(scopes.drop_last(), name, lo, hi);
        }
    }
}

/// A lowered item is never a mark definition, and its mark reference, if
/// any, is a mark visible in the scope stack or bound to an argument.
pub proof fn lemma_lower_ok(
    args: Map<Seq<char>, AsmV>,
    scopes: Seq<Map<Seq<char>, nat>>,
    allow_push0: bool,
    instr: Instruction,
    lo: nat,
    hi: nat,
)
    requires
        scopes_in(scopes, lo, hi),
        args_map_ok(args, lo, hi),
    ensures
        lower_spec(args, scopes, allow_push0, instr) matches Some(Ok(a)) ==> match a {
            AsmV::MarkRef(m) => lo <= m < hi,
            AsmV::Mark(_) => false,
            _ => true,
        },
{
    match instr {
        Instruction::LabelReference(n) => {
            lemma_lookup_in(scopes, n@, lo, hi);
        },
        _ => {},
    }
}

/// The same, for every value a lowered argument list carries.
pub proof fn lemma_lower_args_ok(
    args: Map<Seq<char>, AsmV>,
    scopes: Seq<Map<Seq<char>, nat>>,
    allow_push0: bool,
    iargs: Seq<Instruction>,
    j: int,
    lo: nat,
    hi: nat,
)
    requires
        scopes_in(scopes, lo, hi),
        args_map_ok(args, lo, hi),
    ensures
        lower_args(args, scopes, allow_push0, iargs, j) matches Some(Ok(vals)) ==> arg_items_ok(
            vals,
            lo,
            hi,
        ),
    decreases iargs.len() - j,
{
    if 0 <= j < iargs.len() {
        lemma_lower_ok(args, scopes, allow_push0, iargs[j], lo, hi);
        lemma_lower_args_ok(args, scopes, allow_push0, iargs, j + 1, lo, hi);
    }
}

/// Binding well-bounded values gives a well-bounded binding map.
pub proof fn lemma_bind_map_ok(names: Seq<String>, vals: Seq<AsmV>, lo: nat, hi: nat)
    requires
        arg_items_ok(vals, lo, hi),
    ensures
        args_map_ok(bind_map(names, vals), lo, hi),
    decreases names.len(),
{
    if names.len() != 0 && vals.len() != 0 {
        assert(arg_items_ok(vals.drop_last(), lo, hi));
        lemma_bind_map_ok(names.drop_last(), vals.drop_last(), lo, hi);
    }
}

/// The pre-pass hands out exactly the next `label_count` marks.
pub proof fn lemma_prepass_values(
    body: Seq<MacroStatement>,
    i: int,
    c: nat,
    acc: Map<Seq<char>, nat>,
    lo: nat,
)
    requires
        0 <= i,
        lo <= c,
        map_vals_in(acc, lo, c),
    ensures
        map_vals_in(prepass_map(body, i, c, acc), lo, (c + label_count(body, i)) as nat),
    decreases body.len() - i,
{
    if i < body.len() {
        match body[i] {
            MacroStatement::LabelDefinition(n) => {
                assert(map_vals_in(acc.insert(n@, c), lo, (c + 1) as nat));
                lemma_prepass_values(body, i + 1, (c + 1) as nat, acc.insert(n@, c), lo);
            },
            _ => {
                lemma_prepass_values(body, i + 1, c, acc, lo);
            },
        }
    } else {
        assert(map_vals_in(acc, lo, (c + label_count(body, i)) as nat));
    }
}

/// No two label definitions of one body carry the same name; upstream
/// validation rejects a redefinition within one namespace.
pub open spec fn distinct_labels(body: Seq<MacroStatement>) -> bool {
    forall|k1: int, k2: int|
        0 <= k1 < k2 < body.len() ==> !(#[trigger] body[k1] matches
            MacroStatement::LabelDefinition(n1) && #[trigger] body[k2] matches
            MacroStatement::LabelDefinition(n2) && n1@ == n2@)
}

/// Every macro of the table has distinct label names in its body.
pub open spec fn wf_defs(defs: Map<Seq<char>, Definition>) -> bool {
    forall|name: Seq<char>|
        #[trigger] defs.contains_key(name) ==> match defs[name] {
            Definition::Macro(t) => distinct_labels(t.body@),
            _ => true,
        }
}

/// Label counting is monotone: a suffix has no more labels than the walk
/// from an earlier position.
pub proof fn lemma_label_count_mono(body: Seq<MacroStatement>, i: int, j: int)
    requires
        0 <= i <= j,
    ensures
        label_count(body, i) >= label_count(body, j),
    decreases j - i,
{
    if i < j {
        lemma_label_count_mono(body, i + 1, j);
    }
}

/// With distinct label names, the pre-pass binds the label defined at
/// position `k` to exactly the mark allocated when the walk passed `k`.
pub proof fn lemma_prepass_at(
    body: Seq<MacroStatement>,
    i: int,
    c: nat,
    acc: Map<Seq<char>, nat>,
    k: int,
    name: String,
)
    requires
        0 <= i <= k < body.len(),
        body[k] == MacroStatement::LabelDefinition(name),
        distinct_labels(body),
    ensures
        prepass_map(body, i, c, acc).contains_key(name@),
        prepass_map(body, i, c, acc)[name@] + label_count(body, k) == c + label_count(body, i),
    decreases k - i,
{
    if i == k {
        assert(forall|kk: int|
            i + 1 <= kk < body.len() ==> (#[trigger] body[kk] matches
                MacroStatement::LabelDefinition(n) ==> n@ != name@));
        lemma_prepass_preserves(body, i + 1, (c + 1) as nat, acc.insert(name@, c), name@);
    } else {
        match body[i] {
            MacroStatement::LabelDefinition(n) => {
                assert(n@ != name@);
                lemma_prepass_at(body, i + 1, (c + 1) as nat, acc.insert(n@, c), k, name);
            },
            _ => {
                lemma_prepass_at(body, i + 1, c, acc, k, name);
            },
        }
    }
}

/// The induction for mark uniqueness, over one activation: on success, the
/// activation emits exactly one mark definition for every id the allocator
/// issued during it, no other, and only references marks it can see.
pub proof fn lemma_marks_macro(
    defs: Map<Seq<char>, Definition>,
    m: MacroDef,
    argvals: Seq<AsmV>,
    c: nat,
    scopes: Seq<Map<Seq<char>, nat>>,
    allow_push0: bool,
    fuel: nat,
    lo: nat,
)
    requires
        gen_macro(defs, m, argvals, c, scopes, allow_push0, fuel) matches Some((Ok(_), _)),
        wf_defs(defs),
        distinct_labels(m.body@),
        scopes_in(scopes, lo, c),
        arg_items_ok(argvals, lo, c),
        lo <= c,
    ensures
        gen_macro(defs, m, argvals, c, scopes, allow_push0, fuel) matches Some((Ok(items), c2))
            ==> {
            &&& c <= c2
            &&& forall|mk: nat|
                count_mark_defs(items, mk) == (if c <= mk < c2 {
                    1nat
                } else {
                    0nat
                })
            &&& refs_in(items, lo, c2)
        },
    decreases fuel, m.body@.len() + 1,
{
    let body = m.body@;
    let c1 = (c + label_count(body, 0)) as nat;
    let ns = prepass_map(body, 0, c, Map::empty());
    let scopes1 = scopes.push(ns);
    let bm = bind_map(m.args@, argvals);
    lemma_prepass_values(body, 0, c, Map::empty(), lo);
    assert(scopes_in(scopes1, lo, c1)) by {
        assert(forall|si: int, key: Seq<char>|
            0 <= si < scopes1.len() && #[trigger] scopes1[si].contains_key(key) ==> lo
                <= scopes1[si][key] < c1) by {
            assert(forall|si: int, key: Seq<char>|
                0 <= si < scopes.len() && #[trigger] scopes[si].contains_key(key) ==> lo
                    <= scopes[si][key] < c);
        }
    }
    assert(arg_items_ok(argvals, lo, c1));
    lemma_bind_map_ok(m.args@, argvals, lo, c1);
    lemma_marks_stmts(defs, body, 0, bm, c1, scopes1, allow_push0, fuel, lo, c);
}

/// The same induction, over the emission walk of one body from position
/// `i`: the walk emits one mark definition for each remaining label of this
/// body — the marks the pre-pass allocated for them — plus exactly those of
/// the activations it enters.
pub proof fn lemma_marks_stmts(
    defs: Map<Seq<char>, Definition>,
    body: Seq<MacroStatement>,
    i: int,
    args: Map<Seq<char>, AsmV>,
    c: nat,
    scopes: Seq<Map<Seq<char>, nat>>,
    allow_push0: bool,
    fuel: nat,
    lo: nat,
    cpre: nat,
)
    requires
        gen_stmts(defs, body, i, args, c, scopes, allow_push0, fuel) matches Some((Ok(_), _)),
        wf_defs(defs),
        distinct_labels(body),
        0 <= i,
        scopes.len() > 0,
        scopes.last() == prepass_map(body, 0, cpre, Map::<Seq<char>, nat>::empty()),
        scopes_in(scopes, lo, (cpre + label_count(body, 0)) as nat),
        args_map_ok(args, lo, (cpre + label_count(body, 0)) as nat),
        lo <= cpre,
        cpre + label_count(body, 0) <= c,
    ensures
        gen_stmts(defs, body, i, args, c, scopes, allow_push0, fuel) matches Some((
            Ok(items),
            c2,
        )) ==> {
            let c1 = (cpre + label_count(body, 0)) as nat;
            let own_lo = (c1 - label_count(body, i)) as nat;
            &&& c <= c2
            &&& forall|mk: nat|
                count_mark_defs(items, mk) == (if (own_lo <= mk < c1) || (c <= mk < c2) {
                    1nat
                } else {
                    0nat
                })
            &&& refs_in(items, lo, c2)
        },
    decreases fuel, body.len() - i,
{
    let c1 = (cpre + label_count(body, 0)) as nat;
    let ns = prepass_map(body, 0, cpre, Map::<Seq<char>, nat>::empty());
    if i >= body.len() {
        assert(label_count(body, i) == 0);
    } else {
        lemma_label_count_mono(body, 0, i);
        let own_lo = (c1 - label_count(body, i)) as nat;
        match gen_stmts(defs, body, i, args, c, scopes, allow_push0, fuel) {
            Some((Ok(_), _)) => {
                match gen_stmt(defs, body[i], args, c, scopes, allow_push0, fuel) {
                    Some((Ok(hitems), cmid)) => {
                        let rest = gen_stmts(defs, body, i + 1, args, cmid, scopes, allow_push0,
                            fuel);
                        match body[i] {
                            MacroStatement::LabelDefinition(n) => {
                                lemma_prepass_at(body, 0, cpre, Map::empty(), i, n);
                                assert(lookup_scopes(scopes, n@) == Some(ns[n@]));
                                assert(ns[n@] == own_lo);
                                assert(cmid == c);
                                lemma_marks_stmts(defs, body, i + 1, args, c, scopes, allow_push0,
                                    fuel, lo, cpre);
                                match rest {
                                    Some((Ok(ritems), c2)) => {
                                        assert(hitems == seq![AsmV::Mark(own_lo), AsmV::Op(
                                            crate::items::OP_JUMPDEST)]);
                                        assert(label_count(body, i) == 1 + label_count(body, i + 1));
                                        assert forall|mk: nat| #[trigger] count_mark_defs(
                                            hitems + ritems, mk) == (if (own_lo <= mk < c1) || (c
                                            <= mk < c2) {
                                            1nat
                                        } else {
                                            0nat
                                        }) by {
                                            lemma_count_append(hitems, ritems, mk);
                                            lemma_count_two(AsmV::Mark(own_lo), AsmV::Op(
                                                crate::items::OP_JUMPDEST), mk);
                                        }
                                    },
                                    _ => {},
                                }
                            },
                            MacroStatement::Instruction(instr) => {
                                lemma_lower_ok(args, scopes, allow_push0, instr, lo, c1);
                                assert(cmid == c);
                                lemma_marks_stmts(defs, body, i + 1, args, c, scopes, allow_push0,
                                    fuel, lo, cpre);
                                match rest {
                                    Some((Ok(ritems), c2)) => {
                                        assert(label_count(body, i) == label_count(body, i + 1));
                                        assert forall|mk: nat| #[trigger] count_mark_defs(
                                            hitems + ritems, mk) == (if (own_lo <= mk < c1) || (c
                                            <= mk < c2) {
                                            1nat
                                        } else {
                                            0nat
                                        }) by {
                                            lemma_count_append(hitems, ritems, mk);
                                            lemma_count_one(hitems[0], mk);
                                            assert(hitems =~= seq![hitems[0]]);
                                        }
                                    },
                                    _ => {},
                                }
                            },
                            MacroStatement::Invoke(inv) => {
                                match inv {
                                    Invoke::Macro { name, args: iargs } => {
                                        match defs[name@] {
                                            Definition::Macro(target) => {
                                                match lower_args(args, scopes, allow_push0, iargs@,
                                                    0) {
                                                    Some(Ok(vals)) => {
                                                        lemma_lower_args_ok(args, scopes,
                                                            allow_push0, iargs@, 0, lo, c1);
                                                        assert(arg_items_ok(vals, lo, c));
                                                        assert(scopes_in(scopes, lo, c));
                                                        lemma_marks_macro(defs, target, vals, c,
                                                            scopes, allow_push0, (fuel - 1) as nat,
                                                            lo);
                                                    },
                                                    _ => {},
                                                }
                                            },
                                            _ => {},
                                        }
                                        lemma_marks_stmts(defs, body, i + 1, args, cmid, scopes,
                                            allow_push0, fuel, lo, cpre);
                                        match rest {
                                            Some((Ok(ritems), c2)) => {
                                                assert(label_count(body, i) == label_count(body, i
                                                    + 1));
                                                assert forall|mk: nat| #[trigger] count_mark_defs(
                                                    hitems + ritems, mk) == (if (own_lo <= mk < c1)
                                                    || (c <= mk < c2) {
                                                    1nat
                                                } else {
                                                    0nat
                                                }) by {
                                                    lemma_count_append(hitems, ritems, mk);
                                                }
                                            },
                                            _ => {},
                                        }
                                    },
                                    Invoke::Builtin { .. } => {},
                                }
                            },
                        }
                    },
                    _ => {},
                }
            },
            _ => {},
        }
    }
}

/// Mark uniqueness: on a program that terminates generation successfully,
/// every emitted mark-definition item carries an id issued during this pass
/// and no id is carried by two of them; every mark-reference item's id lies
/// in the same range, so it matches exactly one mark definition.
pub proof fn lemma_mark_uniqueness(
    defs: Map<Seq<char>, Definition>,
    entry: MacroDef,
    c0: nat,
    allow_push0: bool,
    fuel: nat,
)
    requires
        gen_entry(defs, entry, c0, allow_push0, fuel) matches Some((Ok(_), _)),
        wf_defs(defs),
        distinct_labels(entry.body@),
    ensures
        gen_entry(defs, entry, c0, allow_push0, fuel) matches Some((Ok(items), cfin)) ==> {
            &&& forall|mk: nat|
                count_mark_defs(items, mk) == (if c0 <= mk < cfin {
                    1nat
                } else {
                    0nat
                })
            &&& refs_in(items, c0, cfin)
        },
{
    lemma_marks_macro(defs, entry, Seq::empty(), c0, Seq::empty(), allow_push0, fuel, c0);
}



/// The same, stated of the canonical outcome the generator's contract
/// speaks of: whenever generation is defined and succeeds, the ids of its
/// mark definitions are exactly those the allocator issued, each defined
/// once and referenced only within the stream's own range.
pub proof fn lemma_mark_uniqueness_of_generation(
    defs: Map<Seq<char>, Definition>,
    entry: MacroDef,
    c0: nat,
    allow_push0: bool,
)
    requires
        gen_entry_defined(defs, entry, c0, allow_push0),
        wf_defs(defs),
        distinct_labels(entry.body@),
    ensures
        gen_entry_result(defs, entry, c0, allow_push0).0 matches Ok(items) ==> {
            let cfin = gen_entry_result(defs, entry, c0, allow_push0).1;
            &&& forall|mk: nat|
                count_mark_defs(items, mk) == (if c0 <= mk < cfin {
                    1nat
                } else {
                    0nat
                })
            &&& refs_in(items, c0, cfin)
        },
{
    let fz = gen_entry_fuel(defs, entry, c0, allow_push0);
    assert(gen_entry(defs, entry, c0, allow_push0, fz).is_some());
    match gen_entry(defs, entry, c0, allow_push0, fz) {
        Some((Ok(_), _)) => {
            lemma_mark_uniqueness(defs, entry, c0, allow_push0, fz);
        },
        _ => {},
    }
}

} // verus!
