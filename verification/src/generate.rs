//! The recursive macro-expansion engine.  `generate_for_entrypoint` is the
//! public entry; `generate_for_macro` inlines one activation into the shared
//! output stream; `instruction_to_asm` lowers one instruction to one item.
//!
//! The contracts pin every result to the spec-level semantics of
//! `crate::semantics`: on any input on which that semantics is defined, the
//! generator returns exactly the stream (or the first error) the semantics
//! gives, and leaves the mark allocator exactly at the counter it gives.

use vstd::pervasive::unreached;
use vstd::prelude::*;

use crate::ast::{Definition, Instruction, Invoke, MacroDef, MacroStatement};
use crate::bindings::Bindings;
use crate::items::{view_seq, Asm, AsmV, CompileConfig, CompileError, OP_JUMPDEST};
use crate::labels::LabelStack;
use crate::marks::MarkTracker;
use crate::semantics::{
    bind_map, combine_lowered, combine_prefix, gen_entry, gen_entry_defined, gen_entry_fuel,
    gen_entry_result, gen_macro, gen_stmt, gen_stmts, label_count, lemma_combine_lowered_shift,
    lemma_combine_shift, lemma_gen_stmts_counter_mono, lower_args, lower_spec, outcome_counter,
    prepass_map,
};
use crate::table::Definitions;

verus! {

/// Lowers one AST-level instruction to one output item, in the given
/// argument bindings and label scope.  Pure: no recursion, no mutation.
/// The requires excludes the internal-consistency faults (an unbound label
/// or argument name) that an upstream validation pass rules out.
pub fn instruction_to_asm(
    args: &Bindings,
    label_stack: &LabelStack,
    config: &CompileConfig,
    i: &Instruction,
) -> (r: Result<Asm, CompileError>)
    requires
        lower_spec(args@, label_stack@, config.allow_push0, *i).is_some(),
    ensures
        ({
            let s = lower_spec(args@, label_stack@, config.allow_push0, *i);
            match r {
                Ok(a) => s == Some(Ok::<AsmV, crate::items::GenErr>(a@)),
                Err(e) => s == Some(Err::<AsmV, crate::items::GenErr>(e@)),
            }
        }),
{
    match i {
        Instruction::Op(op) => Ok(Asm::Op(*op)),
        Instruction::VariablePush(v) => {
            if v.is_zero() && config.allow_push0 {
                Ok(Asm::Op(crate::items::OP_PUSH0))
            } else {
                Ok(Asm::Push(*v))
            }
        },
        Instruction::LabelReference(name) => match label_stack.get(name) {
            Some(m) => Ok(Asm::MarkRef(m)),
            None => unreached(),
        },
        Instruction::ConstantReference(name) => Err(
            CompileError::ConstantReference(name.clone()),
        ),
        Instruction::MacroArgReference(name) => match args.get(name) {
            Some(a) => Ok(a),
            None => unreached(),
        },
    }
}

/// Expands one macro activation: binds the supplied values to the declared
/// argument names, pre-registers every label of the body under a fresh mark
/// in a new namespace, then emits the body in order, recursing in place on
/// every macro invocation.  Appends to the shared stream; on success the
/// namespace is popped again and the stack is exactly as it was.
#[verifier::loop_isolation(false)]
#[verifier::rlimit(100)]
pub fn generate_for_macro(
    defs: &Definitions,
    current: &MacroDef,
    arg_values: Vec<Asm>,
    mark_tracker: &mut MarkTracker,
    label_stack: &mut LabelStack,
    out: &mut Vec<Asm>,
    config: &CompileConfig,
    fuel: Ghost<nat>,
) -> (r: Result<(), CompileError>)
    requires
        gen_macro(
            defs@,
            *current,
            view_seq(arg_values@),
            old(mark_tracker)@,
            old(label_stack)@,
            config.allow_push0,
            fuel@,
        ).is_some(),
        outcome_counter(
            gen_macro(
                defs@,
                *current,
                view_seq(arg_values@),
                old(mark_tracker)@,
                old(label_stack)@,
                config.allow_push0,
                fuel@,
            ),
        ) <= usize::MAX,
    ensures
        ({
            let g = gen_macro(
                defs@,
                *current,
                view_seq(arg_values@),
                old(mark_tracker)@,
                old(label_stack)@,
                config.allow_push0,
                fuel@,
            );
            &&& final(mark_tracker)@ == outcome_counter(g)
            &&& final(out)@.len() >= old(out)@.len()
            &&& final(out)@.take(old(out)@.len() as int) == old(out)@
            &&& (r matches Ok(_) ==> {
                &&& g matches Some((Ok(items), _)) && view_seq(
                    final(out)@.skip(old(out)@.len() as int),
                ) == items
                &&& final(label_stack)@ == old(label_stack)@
            })
            &&& (r matches Err(e) ==> (g matches Some((Err(ge), _)) && e@ == ge))
        }),
    decreases fuel@,
{
    let ghost defs_m = defs@;
    let ghost c0 = mark_tracker@;
    let ghost scopes0 = label_stack@;
    let ghost p0 = config.allow_push0;
    let ghost vals = view_seq(arg_values@);
    let ghost g = gen_macro(defs_m, *current, vals, c0, scopes0, p0, fuel@);

    proof {
        assert(current.args@.len() == vals.len());
    }

    // Build this activation's argument bindings: declared names, in
    // declaration order, paired with the caller-supplied values.
    let mut bindings = Bindings::new();
    let n_args = current.args.len();
    let mut i: usize = 0;
    while i < n_args
        invariant
            i <= n_args,
            bindings@ == bind_map(
                current.args@.take(i as int),
                view_seq(arg_values@).take(i as int),
            ),
        decreases n_args - i,
    {
        bindings.bind(current.args[i].clone(), arg_values[i]);
        proof {
            let names = current.args@;
            let vs = view_seq(arg_values@);
            assert(names.take(i as int + 1).drop_last() =~= names.take(i as int));
            assert(vs.take(i as int + 1).drop_last() =~= vs.take(i as int));
        }
        i = i + 1;
    }
    proof {
        assert(current.args@.take(n_args as int) =~= current.args@);
        assert(view_seq(arg_values@).take(n_args as int) =~= view_seq(arg_values@));
    }
    let ghost bm = bind_map(current.args@, vals);

    // Enter a fresh namespace and pre-register every label of the body, so
    // that a reference before the textual definition resolves too.
    label_stack.enter_context();
    let ghost big_c = (c0 + label_count(current.body@, 0)) as nat;
    let ghost ns_full = prepass_map(current.body@, 0, c0, Map::empty());
    let ghost scopes1 = scopes0.push(ns_full);
    proof {
        assert(g == gen_stmts(defs_m, current.body@, 0, bm, big_c, scopes1, p0, fuel@));
        lemma_gen_stmts_counter_mono(defs_m, current.body@, 0, bm, big_c, scopes1, p0, fuel@);
        assert(big_c <= outcome_counter(g));
    }

    let body_len = current.body.len();
    let mut idx: usize = 0;
    while idx < body_len
        invariant
            idx <= body_len,
            mark_tracker@ + label_count(current.body@, idx as int) == c0 + label_count(
                current.body@,
                0,
            ),
            label_stack@.len() == scopes0.len() + 1,
            label_stack@.drop_last() == scopes0,
            prepass_map(current.body@, idx as int, mark_tracker@, label_stack@.last()) == ns_full,
        decreases body_len - idx,
    {
        match &current.body[idx] {
            MacroStatement::LabelDefinition(name) => {
                proof {
                    assert(label_count(current.body@, idx as int) == 1 + label_count(
                        current.body@,
                        idx as int + 1,
                    ));
                    assert(mark_tracker@ < big_c);
                }
                let mark = mark_tracker.next_mark();
                label_stack.push(name.clone(), mark);
                proof {
                    assert(label_stack@.drop_last() =~= scopes0);
                }
            },
            _ => {},
        }
        idx = idx + 1;
    }
    proof {
        assert(label_count(current.body@, body_len as int) == 0);
        assert(mark_tracker@ == big_c);
        assert(prepass_map(current.body@, body_len as int, mark_tracker@, label_stack@.last())
            == label_stack@.last());
        assert(label_stack@ =~= scopes1);
    }

    // Emission pass: statement order is the sole source of emission order.
    let ghost asm0 = out@;
    let ghost n0 = asm0.len() as int;
    proof {
        assert(view_seq(out@.skip(n0)) =~= Seq::<AsmV>::empty());
        assert(g == combine_prefix(
            view_seq(out@.skip(n0)),
            gen_stmts(defs_m, current.body@, 0, bm, mark_tracker@, scopes1, p0, fuel@),
        ));
        assert(out@.take(n0) =~= asm0);
    }
    let mut idx2: usize = 0;
    while idx2 < body_len
        invariant
            idx2 <= body_len,
            label_stack@ == scopes1,
            bindings@ == bm,
            out@.len() >= asm0.len(),
            out@.take(n0) == asm0,
            g == combine_prefix(
                view_seq(out@.skip(n0)),
                gen_stmts(
                    defs_m,
                    current.body@,
                    idx2 as int,
                    bm,
                    mark_tracker@,
                    scopes1,
                    p0,
                    fuel@,
                ),
            ),
        decreases body_len - idx2,
    {
        let ghost emitted = view_seq(out@.skip(n0));
        let ghost suffix = gen_stmts(
            defs_m,
            current.body@,
            idx2 as int,
            bm,
            mark_tracker@,
            scopes1,
            p0,
            fuel@,
        );
        let ghost rest = gen_stmts(
            defs_m,
            current.body@,
            idx2 as int + 1,
            bm,
            mark_tracker@,
            scopes1,
            p0,
            fuel@,
        );
        let ghost head = gen_stmt(
            defs_m,
            current.body@[idx2 as int],
            bm,
            mark_tracker@,
            scopes1,
            p0,
            fuel@,
        );
        proof {
            assert(suffix.is_some());
        }
        match &current.body[idx2] {
            MacroStatement::LabelDefinition(name) => {
                let m = match label_stack.get(name) {
                    Some(m) => m,
                    None => unreached(),
                };
                let ghost hitems = seq![AsmV::Mark(m as nat), AsmV::Op(OP_JUMPDEST)];
                proof {
                    assert(head == Some((Ok::<Seq<AsmV>, crate::items::GenErr>(hitems),
                        mark_tracker@)));
                    assert(suffix == combine_prefix(hitems, rest));
                }
                out.push(Asm::Mark(m));
                out.push(Asm::Op(OP_JUMPDEST));
                proof {
                    assert(out@.take(n0) =~= asm0);
                    assert(view_seq(out@.skip(n0)) =~= emitted + hitems);
                    lemma_combine_shift(emitted, hitems, rest);
                }
            },
            MacroStatement::Instruction(instr) => {
                match instruction_to_asm(&bindings, label_stack, config, instr) {
                    Ok(a) => {
                        proof {
                            assert(head == Some((Ok::<Seq<AsmV>, crate::items::GenErr>(
                                seq![a@]), mark_tracker@)));
                            assert(suffix == combine_prefix(seq![a@], rest));
                        }
                        out.push(a);
                        proof {
                            assert(out@.take(n0) =~= asm0);
                            assert(view_seq(out@.skip(n0)) =~= emitted + seq![a@]);
                            lemma_combine_shift(emitted, seq![a@], rest);
                        }
                    },
                    Err(e) => {
                        proof {
                            assert(g == Some((Err::<Seq<AsmV>, crate::items::GenErr>(e@),
                                mark_tracker@)));
                        }
                        return Err(e);
                    },
                }
            },
            MacroStatement::Invoke(inv) => match inv {
                Invoke::Builtin { name } => {
                    let e = CompileError::UnsupportedInvoke(name.clone());
                    proof {
                        assert(g == Some((Err::<Seq<AsmV>, crate::items::GenErr>(e@),
                            mark_tracker@)));
                    }
                    return Err(e);
                },
                Invoke::Macro { name, args: invoke_args } => {
                    let target = match defs.get(name) {
                        Some(d) => match d {
                            Definition::Macro(t) => t,
                            _ => unreached(),
                        },
                        None => unreached(),
                    };
                    // Lower the supplied argument expressions in this
                    // caller's bindings and scope, in order.
                    let ghost la_full = lower_args(bm, scopes1, p0, invoke_args@, 0);
                    let mut lowered: Vec<Asm> = Vec::new();
                    let args_len = invoke_args.len();
                    proof {
                        assert(view_seq(lowered@) =~= Seq::<AsmV>::empty());
                        assert(la_full == combine_lowered(
                            view_seq(lowered@),
                            lower_args(bm, scopes1, p0, invoke_args@, 0),
                        ));
                    }
                    let mut j: usize = 0;
                    while j < args_len
                        invariant
                            j <= args_len,
                            label_stack@ == scopes1,
                            bindings@ == bm,
                            la_full == combine_lowered(
                                view_seq(lowered@),
                                lower_args(bm, scopes1, p0, invoke_args@, j as int),
                            ),
                        decreases args_len - j,
                    {
                        let ghost lpre = view_seq(lowered@);
                        let ghost lrest = lower_args(bm, scopes1, p0, invoke_args@, j as int);
                        proof {
                            assert(lrest.is_some());
                        }
                        match instruction_to_asm(&bindings, label_stack, config, &invoke_args[j]) {
                            Ok(a) => {
                                lowered.push(a);
                                proof {
                                    assert(lrest == combine_lowered(
                                        seq![a@],
                                        lower_args(bm, scopes1, p0, invoke_args@, j as int + 1),
                                    ));
                                    assert(view_seq(lowered@) =~= lpre + seq![a@]);
                                    lemma_combine_lowered_shift(
                                        lpre,
                                        seq![a@],
                                        lower_args(bm, scopes1, p0, invoke_args@, j as int + 1),
                                    );
                                }
                            },
                            Err(e) => {
                                proof {
                                    assert(g == Some((
                                        Err::<Seq<AsmV>, crate::items::GenErr>(e@),
                                        mark_tracker@,
                                    )));
                                }
                                return Err(e);
                            },
                        }
                        j = j + 1;
                    }
                    proof {
                        assert(lower_args(bm, scopes1, p0, invoke_args@, args_len as int)
                            == Some(Ok::<Seq<AsmV>, crate::items::GenErr>(Seq::empty())));
                        assert(view_seq(lowered@) + Seq::<AsmV>::empty() =~= view_seq(lowered@));
                        assert(la_full == Some(Ok::<Seq<AsmV>, crate::items::GenErr>(
                            view_seq(lowered@),
                        )));
                        assert(fuel@ > 0);
                        assert(head == gen_macro(
                            defs_m,
                            *target,
                            view_seq(lowered@),
                            mark_tracker@,
                            scopes1,
                            p0,
                            (fuel@ - 1) as nat,
                        ));
                        lemma_gen_stmts_counter_mono(
                            defs_m,
                            current.body@,
                            idx2 as int + 1,
                            bm,
                            outcome_counter(head),
                            scopes1,
                            p0,
                            fuel@,
                        );
                        assert(outcome_counter(head) <= outcome_counter(g));
                    }
                    match generate_for_macro(
                        defs,
                        target,
                        lowered,
                        mark_tracker,
                        label_stack,
                        out,
                        config,
                        Ghost((fuel@ - 1) as nat),
                    ) {
                        Ok(_) => {
                            proof {
                                assert(head matches Some((Ok(_), _)));
                                let hit = match head {
                                    Some((Ok(it), _)) => it,
                                    _ => Seq::empty(),
                                };
                                let rest2 = gen_stmts(
                                    defs_m,
                                    current.body@,
                                    idx2 as int + 1,
                                    bm,
                                    mark_tracker@,
                                    scopes1,
                                    p0,
                                    fuel@,
                                );
                                assert(mark_tracker@ == outcome_counter(head));
                                assert(suffix == combine_prefix(hit, rest2));
                                assert(out@.take(n0) =~= asm0);
                                assert(view_seq(out@.skip(n0)) =~= emitted + hit);
                                lemma_combine_shift(emitted, hit, rest2);
                            }
                        },
                        Err(e) => {
                            proof {
                                assert(g == Some((
                                    Err::<Seq<AsmV>, crate::items::GenErr>(e@),
                                    mark_tracker@,
                                )));
                            }
                            return Err(e);
                        },
                    }
                },
            },
        }
        idx2 = idx2 + 1;
    }
    proof {
        assert(gen_stmts(defs_m, current.body@, body_len as int, bm, mark_tracker@, scopes1, p0,
            fuel@) == Some((Ok::<Seq<AsmV>, crate::items::GenErr>(Seq::empty()), mark_tracker@)));
        assert(view_seq(out@.skip(n0)) + Seq::<AsmV>::empty() =~= view_seq(out@.skip(n0)));
        assert(g == Some((Ok::<Seq<AsmV>, crate::items::GenErr>(view_seq(out@.skip(n0))),
            mark_tracker@)));
    }
    label_stack.leave_context();
    proof {
        assert(label_stack@ =~= scopes0);
    }
    Ok(())
}

/// The public entry: initializes an empty output stream and an empty label
/// scope, then expands the chosen entry macro with zero arguments.  Returns
/// the completed stream, or the first error met; the allocator is left
/// exactly at the counter the semantics gives, so repeated passes over
/// independent allocators started at the same value agree item for item.
pub fn generate_for_entrypoint(
    global_defs: &Definitions,
    entry_point: &MacroDef,
    mark_tracker: &mut MarkTracker,
    config: &CompileConfig,
) -> (r: Result<Vec<Asm>, CompileError>)
    requires
        gen_entry_defined(global_defs@, *entry_point, old(mark_tracker)@, config.allow_push0),
        gen_entry_result(global_defs@, *entry_point, old(mark_tracker)@, config.allow_push0).1
            <= usize::MAX,
    ensures
        ({
            let res = gen_entry_result(
                global_defs@,
                *entry_point,
                old(mark_tracker)@,
                config.allow_push0,
            );
            &&& final(mark_tracker)@ == res.1
            &&& (r matches Ok(v) ==> (res.0 matches Ok(items) && view_seq(v@) == items))
            &&& (r matches Err(e) ==> (res.0 matches Err(ge) && e@ == ge))
        }),
{
    let ghost c0 = mark_tracker@;
    let ghost p0 = config.allow_push0;
    let ghost fz = gen_entry_fuel(global_defs@, *entry_point, c0, p0);
    proof {
        assert(gen_entry(global_defs@, *entry_point, c0, p0, fz).is_some());
    }
    let mut label_stack = LabelStack::new();
    let mut out: Vec<Asm> = Vec::new();
    let arg_values: Vec<Asm> = Vec::new();
    proof {
        assert(view_seq(arg_values@) =~= Seq::<AsmV>::empty());
        assert(gen_macro(global_defs@, *entry_point, view_seq(arg_values@), c0, label_stack@, p0,
            fz) == gen_entry(global_defs@, *entry_point, c0, p0, fz));
    }
    let res = generate_for_macro(
        global_defs,
        entry_point,
        arg_values,
        mark_tracker,
        &mut label_stack,
        &mut out,
        config,
        Ghost(fz),
    );
    match res {
        Ok(_) => {
            proof {
                assert(out@.skip(0) =~= out@);
            }
            Ok(out)
        },
        Err(e) => Err(e),
    }
}

} // verus!
