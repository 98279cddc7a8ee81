use huff_compilation::bindings::Bindings;
use huff_compilation::{
    generate_for_entrypoint, instruction_to_asm, Asm, CompileConfig, CompileError, Definition,
    Definitions, Instruction, Invoke, LabelStack, MacroDef, MacroStatement, MarkTracker, U256,
    OP_JUMPDEST, OP_PUSH0,
};

fn s(x: &str) -> String {
    x.to_string()
}

fn entry(body: Vec<MacroStatement>) -> MacroDef {
    MacroDef { name: s("MAIN"), args: vec![], body }
}

fn cfg(allow_push0: bool) -> CompileConfig {
    CompileConfig { allow_push0 }
}

fn gen(
    defs: &Definitions,
    entry_point: &MacroDef,
    allow_push0: bool,
) -> Result<Vec<Asm>, CompileError> {
    let mut tracker = MarkTracker::new();
    generate_for_entrypoint(defs, entry_point, &mut tracker, &cfg(allow_push0))
}

#[test]
fn single_opcode_body() {
    let main = entry(vec![MacroStatement::Instruction(Instruction::Op(0x01))]);
    let out = gen(&Definitions::new(), &main, true).unwrap();
    assert_eq!(out, vec![Asm::Op(0x01)]);
}

#[test]
fn empty_body_yields_empty_stream() {
    let main = entry(vec![]);
    let out = gen(&Definitions::new(), &main, true).unwrap();
    assert_eq!(out, vec![]);
}

#[test]
fn reference_before_definition() {
    let main = entry(vec![
        MacroStatement::Instruction(Instruction::LabelReference(s("l"))),
        MacroStatement::LabelDefinition(s("l")),
    ]);
    let out = gen(&Definitions::new(), &main, true).unwrap();
    assert_eq!(out, vec![Asm::MarkRef(0), Asm::Mark(0), Asm::Op(OP_JUMPDEST)]);
    let n_defs = out.iter().filter(|a| matches!(a, Asm::Mark(0))).count();
    let n_refs = out.iter().filter(|a| matches!(a, Asm::MarkRef(0))).count();
    assert_eq!(n_defs, 1);
    assert_eq!(n_refs, 1);
}

#[test]
fn reference_before_and_after_definition_agree() {
    let main = entry(vec![
        MacroStatement::Instruction(Instruction::LabelReference(s("l"))),
        MacroStatement::LabelDefinition(s("l")),
        MacroStatement::Instruction(Instruction::LabelReference(s("l"))),
    ]);
    let out = gen(&Definitions::new(), &main, true).unwrap();
    assert_eq!(
        out,
        vec![Asm::MarkRef(0), Asm::Mark(0), Asm::Op(OP_JUMPDEST), Asm::MarkRef(0)]
    );
}

#[test]
fn macro_argument_pass_through() {
    let mut defs = Definitions::new();
    defs.insert(
        s("F"),
        Definition::Macro(MacroDef {
            name: s("F"),
            args: vec![s("x")],
            body: vec![MacroStatement::Instruction(Instruction::MacroArgReference(s("x")))],
        }),
    );
    let main = entry(vec![MacroStatement::Invoke(Invoke::Macro {
        name: s("F"),
        args: vec![Instruction::VariablePush(U256::from_u64(5))],
    })]);
    let out = gen(&defs, &main, true).unwrap();
    assert_eq!(out, vec![Asm::Push(U256::from_u64(5))]);
}

#[test]
fn sibling_invocations_get_distinct_marks() {
    let mut defs = Definitions::new();
    defs.insert(
        s("F"),
        Definition::Macro(MacroDef {
            name: s("F"),
            args: vec![],
            body: vec![MacroStatement::LabelDefinition(s("loop"))],
        }),
    );
    let invoke = || {
        MacroStatement::Invoke(Invoke::Macro { name: s("F"), args: vec![] })
    };
    let main = entry(vec![invoke(), invoke()]);
    let out = gen(&defs, &main, true).unwrap();
    assert_eq!(
        out,
        vec![Asm::Mark(0), Asm::Op(OP_JUMPDEST), Asm::Mark(1), Asm::Op(OP_JUMPDEST)]
    );
}

#[test]
fn zero_push_optimization_enabled() {
    let main = entry(vec![MacroStatement::Instruction(Instruction::VariablePush(U256::zero()))]);
    let out = gen(&Definitions::new(), &main, true).unwrap();
    assert_eq!(out, vec![Asm::Op(OP_PUSH0)]);
}

#[test]
fn zero_push_optimization_disabled() {
    let main = entry(vec![MacroStatement::Instruction(Instruction::VariablePush(U256::zero()))]);
    let out = gen(&Definitions::new(), &main, false).unwrap();
    assert_eq!(out, vec![Asm::Push(U256::zero())]);
}

#[test]
fn nonzero_push_is_never_optimized() {
    let main = entry(vec![MacroStatement::Instruction(Instruction::VariablePush(
        U256::from_u64(7),
    ))]);
    let out = gen(&Definitions::new(), &main, true).unwrap();
    assert_eq!(out, vec![Asm::Push(U256::from_u64(7))]);
}

#[test]
fn constant_reference_fails() {
    let main = entry(vec![
        MacroStatement::Instruction(Instruction::Op(0x01)),
        MacroStatement::Instruction(Instruction::ConstantReference(s("MY_CONST"))),
    ]);
    let r = gen(&Definitions::new(), &main, true);
    assert_eq!(r, Err(CompileError::ConstantReference(s("MY_CONST"))));
}

#[test]
fn builtin_invocation_fails() {
    let main = entry(vec![MacroStatement::Invoke(Invoke::Builtin { name: s("__tablestart") })]);
    let r = gen(&Definitions::new(), &main, true);
    assert_eq!(r, Err(CompileError::UnsupportedInvoke(s("__tablestart"))));
}

#[test]
fn generation_is_deterministic() {
    let mut defs = Definitions::new();
    defs.insert(
        s("F"),
        Definition::Macro(MacroDef {
            name: s("F"),
            args: vec![s("a")],
            body: vec![
                MacroStatement::LabelDefinition(s("here")),
                MacroStatement::Instruction(Instruction::MacroArgReference(s("a"))),
                MacroStatement::Instruction(Instruction::LabelReference(s("here"))),
            ],
        }),
    );
    let main = entry(vec![
        MacroStatement::LabelDefinition(s("top")),
        MacroStatement::Invoke(Invoke::Macro {
            name: s("F"),
            args: vec![Instruction::LabelReference(s("top"))],
        }),
    ]);
    let mut t1 = MarkTracker::starting_at(10);
    let mut t2 = MarkTracker::starting_at(10);
    let r1 = generate_for_entrypoint(&defs, &main, &mut t1, &cfg(true)).unwrap();
    let r2 = generate_for_entrypoint(&defs, &main, &mut t2, &cfg(true)).unwrap();
    assert_eq!(r1, r2);
    assert_eq!(t1.next_mark(), t2.next_mark());
}

#[test]
fn argument_label_reference_resolves_like_direct_reference() {
    let mut defs = Definitions::new();
    defs.insert(
        s("F"),
        Definition::Macro(MacroDef {
            name: s("F"),
            args: vec![s("x")],
            body: vec![MacroStatement::Instruction(Instruction::MacroArgReference(s("x")))],
        }),
    );
    let main = entry(vec![
        MacroStatement::LabelDefinition(s("target")),
        MacroStatement::Invoke(Invoke::Macro {
            name: s("F"),
            args: vec![Instruction::LabelReference(s("target"))],
        }),
        MacroStatement::Instruction(Instruction::LabelReference(s("target"))),
    ]);
    let out = gen(&defs, &main, true).unwrap();
    assert_eq!(
        out,
        vec![Asm::Mark(0), Asm::Op(OP_JUMPDEST), Asm::MarkRef(0), Asm::MarkRef(0)]
    );
}

#[test]
fn callee_sees_callers_labels() {
    let mut defs = Definitions::new();
    defs.insert(
        s("F"),
        Definition::Macro(MacroDef {
            name: s("F"),
            args: vec![],
            body: vec![MacroStatement::Instruction(Instruction::LabelReference(s("l")))],
        }),
    );
    let main = entry(vec![
        MacroStatement::LabelDefinition(s("l")),
        MacroStatement::Invoke(Invoke::Macro { name: s("F"), args: vec![] }),
    ]);
    let out = gen(&defs, &main, true).unwrap();
    assert_eq!(out, vec![Asm::Mark(0), Asm::Op(OP_JUMPDEST), Asm::MarkRef(0)]);
}

#[test]
fn nested_invocations_share_one_allocator() {
    let mut defs = Definitions::new();
    defs.insert(
        s("B"),
        Definition::Macro(MacroDef {
            name: s("B"),
            args: vec![],
            body: vec![
                MacroStatement::LabelDefinition(s("inner")),
                MacroStatement::Instruction(Instruction::LabelReference(s("inner"))),
            ],
        }),
    );
    defs.insert(
        s("A"),
        Definition::Macro(MacroDef {
            name: s("A"),
            args: vec![],
            body: vec![
                MacroStatement::LabelDefinition(s("mid")),
                MacroStatement::Invoke(Invoke::Macro { name: s("B"), args: vec![] }),
            ],
        }),
    );
    let main = entry(vec![
        MacroStatement::LabelDefinition(s("outer")),
        MacroStatement::Invoke(Invoke::Macro { name: s("A"), args: vec![] }),
    ]);
    let mut tracker = MarkTracker::new();
    let out = generate_for_entrypoint(&defs, &main, &mut tracker, &cfg(true)).unwrap();
    assert_eq!(
        out,
        vec![
            Asm::Mark(0),
            Asm::Op(OP_JUMPDEST),
            Asm::Mark(1),
            Asm::Op(OP_JUMPDEST),
            Asm::Mark(2),
            Asm::Op(OP_JUMPDEST),
            Asm::MarkRef(2),
        ]
    );
    assert_eq!(tracker.next_mark(), 3);
}

#[test]
fn marks_continue_from_tracker_start() {
    let main = entry(vec![
        MacroStatement::LabelDefinition(s("l")),
        MacroStatement::Instruction(Instruction::LabelReference(s("l"))),
    ]);
    let mut tracker = MarkTracker::starting_at(41);
    let out = generate_for_entrypoint(&Definitions::new(), &main, &mut tracker, &cfg(true))
        .unwrap();
    assert_eq!(out, vec![Asm::Mark(41), Asm::Op(OP_JUMPDEST), Asm::MarkRef(41)]);
    assert_eq!(tracker.next_mark(), 42);
}

#[test]
fn opcode_passes_through_unchanged() {
    let main = entry(vec![
        MacroStatement::Instruction(Instruction::Op(0x60)),
        MacroStatement::Instruction(Instruction::Op(0x00)),
        MacroStatement::Instruction(Instruction::Op(0xfe)),
    ]);
    let out = gen(&Definitions::new(), &main, true).unwrap();
    assert_eq!(out, vec![Asm::Op(0x60), Asm::Op(0x00), Asm::Op(0xfe)]);
}

#[test]
fn first_error_wins_in_argument_lowering() {
    let mut defs = Definitions::new();
    defs.insert(
        s("F"),
        Definition::Macro(MacroDef {
            name: s("F"),
            args: vec![s("x"), s("y")],
            body: vec![],
        }),
    );
    let main = entry(vec![MacroStatement::Invoke(Invoke::Macro {
        name: s("F"),
        args: vec![
            Instruction::ConstantReference(s("FIRST")),
            Instruction::ConstantReference(s("SECOND")),
        ],
    })]);
    let r = gen(&defs, &main, true);
    assert_eq!(r, Err(CompileError::ConstantReference(s("FIRST"))));
}

#[test]
fn error_aborts_generation_midway() {
    let main = entry(vec![
        MacroStatement::Instruction(Instruction::Op(0x01)),
        MacroStatement::Instruction(Instruction::ConstantReference(s("C"))),
        MacroStatement::Instruction(Instruction::Op(0x02)),
    ]);
    let r = gen(&Definitions::new(), &main, true);
    assert!(r.is_err());
}

#[test]
fn lowering_reads_bindings_and_scope() {
    let mut bindings = Bindings::new();
    bindings.bind(s("x"), Asm::Op(0x01));
    let mut scope = LabelStack::new();
    scope.enter_context();
    scope.push(s("l"), 7);
    let config = cfg(true);

    let arg = instruction_to_asm(&bindings, &scope, &config, &Instruction::MacroArgReference(s("x")));
    assert_eq!(arg, Ok(Asm::Op(0x01)));
    let lref = instruction_to_asm(&bindings, &scope, &config, &Instruction::LabelReference(s("l")));
    assert_eq!(lref, Ok(Asm::MarkRef(7)));
    let op = instruction_to_asm(&bindings, &scope, &config, &Instruction::Op(0x5a));
    assert_eq!(op, Ok(Asm::Op(0x5a)));
    let zero = instruction_to_asm(&bindings, &scope, &config, &Instruction::VariablePush(U256::zero()));
    assert_eq!(zero, Ok(Asm::Op(OP_PUSH0)));
    let cref = instruction_to_asm(&bindings, &scope, &config, &Instruction::ConstantReference(s("K")));
    assert_eq!(cref, Err(CompileError::ConstantReference(s("K"))));
}

#[test]
fn shadowed_label_resolves_innermost() {
    let mut defs = Definitions::new();
    defs.insert(
        s("F"),
        Definition::Macro(MacroDef {
            name: s("F"),
            args: vec![],
            body: vec![
                MacroStatement::LabelDefinition(s("l")),
                MacroStatement::Instruction(Instruction::LabelReference(s("l"))),
            ],
        }),
    );
    let main = entry(vec![
        MacroStatement::LabelDefinition(s("l")),
        MacroStatement::Invoke(Invoke::Macro { name: s("F"), args: vec![] }),
        MacroStatement::Instruction(Instruction::LabelReference(s("l"))),
    ]);
    let out = gen(&defs, &main, true).unwrap();
    assert_eq!(
        out,
        vec![
            Asm::Mark(0),
            Asm::Op(OP_JUMPDEST),
            Asm::Mark(1),
            Asm::Op(OP_JUMPDEST),
            Asm::MarkRef(1),
            Asm::MarkRef(0),
        ]
    );
}
