use vhdl_lower::codegen::{Codegen, ScoreContext, UNSIZED_INT_WIDTH};
use vhdl_lower::diag::{Failure, Severity};
use vhdl_lower::hir::{ConcStmt, Const, DeclInBlock, ProcessStmt, SeqStmt, SignalDecl};
use vhdl_lower::ir::{ExtUnit, Inst, UnitBuilder, UnitKind, Value};

fn top() -> UnitBuilder {
    UnitBuilder::with_entry("top".to_string(), UnitKind::Entity)
}

#[test]
fn constants_lower_to_integer_constants() {
    let cx = ScoreContext::new(vec![Some(3)]);
    let mut b = top();
    assert_eq!(cx.map_const(&mut b, &Const::Null), Ok(Value { block: 0, index: 0 }));
    assert_eq!(cx.map_const(&mut b, &Const::Int(-5)), Ok(Value { block: 0, index: 1 }));
    assert_eq!(
        cx.map_const(&mut b, &Const::Enum { decl: 0, index: 2 }),
        Ok(Value { block: 0, index: 2 })
    );
    let insts = &b.unit.blocks[0].insts;
    assert!(matches!(insts[0], Inst::ConstInt { width: 0, value: 0 }));
    assert!(matches!(insts[1], Inst::ConstInt { width: w, value: -5 } if w == UNSIZED_INT_WIDTH));
    assert!(matches!(insts[2], Inst::ConstInt { width: 3, value: 2 }));
}

#[test]
fn float_and_range_constants_are_defects() {
    let cx = ScoreContext::new(vec![]);
    let mut b = top();
    for k in [Const::Float, Const::IntRange, Const::FloatRange, Const::Enum { decl: 0, index: 0 }] {
        assert_eq!(cx.map_const(&mut b, &k), Err(Failure::Defect));
    }
    assert!(b.unit.blocks[0].insts.is_empty());
}

#[test]
fn signal_without_initializer_uses_default() {
    let mut cx = ScoreContext::new(vec![Some(2)]);
    let mut b = top();
    let d = DeclInBlock::Signal(SignalDecl {
        name: "s".to_string(),
        init: None,
        default: Const::Enum { decl: 0, index: 0 },
    });
    assert_eq!(cx.lower_decl(&d, &mut b), Ok(()));
    let insts = &b.unit.blocks[0].insts;
    assert_eq!(insts.len(), 2);
    assert!(matches!(insts[0], Inst::ConstInt { width: 2, value: 0 }));
    assert!(matches!(insts[1], Inst::Sig { init: Value { block: 0, index: 0 } }));
    assert!(cx.diags.is_empty());
}

#[test]
fn signal_with_initializer_uses_it() {
    let mut cx = ScoreContext::new(vec![]);
    let mut b = top();
    b.ins(Inst::ConstInt { width: 1, value: 1 });
    let d = DeclInBlock::Signal(SignalDecl {
        name: "s".to_string(),
        init: Some(Const::Int(42)),
        default: Const::Int(0),
    });
    assert_eq!(cx.lower_decl(&d, &mut b), Ok(()));
    let insts = &b.unit.blocks[0].insts;
    assert_eq!(insts.len(), 3);
    assert!(matches!(insts[1], Inst::ConstInt { value: 42, .. }));
    assert!(matches!(insts[2], Inst::Sig { init: Value { block: 0, index: 1 } }));
}

#[test]
fn signal_with_unmappable_initializer_adds_nothing() {
    let mut cx = ScoreContext::new(vec![]);
    let mut b = top();
    let d = DeclInBlock::Signal(SignalDecl {
        name: "s".to_string(),
        init: Some(Const::Float),
        default: Const::Int(0),
    });
    assert_eq!(cx.lower_decl(&d, &mut b), Err(Failure::Defect));
    assert!(b.unit.blocks[0].insts.is_empty());
}

#[test]
fn passive_declarations_emit_nothing() {
    let mut cx = ScoreContext::new(vec![]);
    let mut b = top();
    for d in [
        DeclInBlock::Type,
        DeclInBlock::Subtype,
        DeclInBlock::Alias,
        DeclInBlock::Attr,
        DeclInBlock::AttrSpec,
        DeclInBlock::CfgSpec,
        DeclInBlock::Discon,
        DeclInBlock::GroupTemp,
        DeclInBlock::Group,
    ] {
        assert_eq!(cx.lower_decl(&d, &mut b), Ok(()));
    }
    assert!(b.unit.blocks[0].insts.is_empty());
    assert!(cx.diags.is_empty());
}

#[test]
fn unimplemented_declarations_report_their_kind() {
    let cases = [
        (DeclInBlock::Subprog, "subprogram declaration"),
        (DeclInBlock::SubprogBody, "subprogram body"),
        (DeclInBlock::SubprogInst, "subprogram instantiation"),
        (DeclInBlock::Pkg, "package declaration"),
        (DeclInBlock::PkgBody, "package body"),
        (DeclInBlock::PkgInst, "package instantiation"),
        (DeclInBlock::Const, "constant declaration"),
        (DeclInBlock::Var, "variable declaration"),
        (DeclInBlock::File, "file declaration"),
        (DeclInBlock::Comp, "component declaration"),
    ];
    for (d, kind) in cases {
        let mut cx = ScoreContext::new(vec![]);
        let mut b = top();
        assert_eq!(cx.lower_decl(&d, &mut b), Err(Failure::Reported));
        assert_eq!(cx.diags.len(), 1);
        assert_eq!(cx.diags[0].severity, Severity::Bug);
        assert_eq!(
            cx.diags[0].message,
            format!("code generation for {} not implemented", kind)
        );
        assert!(b.unit.blocks[0].insts.is_empty());
    }
}

#[test]
fn unimplemented_statements_report_their_kind() {
    let cases = [
        (ConcStmt::Block, "block statement"),
        (ConcStmt::ConcProcCall, "concurrent procedure call"),
        (ConcStmt::ConcAssert, "concurrent assertion"),
        (ConcStmt::ConcSigAssign, "concurrent signal assignment"),
        (ConcStmt::CompInst, "component instantiation"),
        (ConcStmt::ForGen, "for generate statement"),
        (ConcStmt::IfGen, "if generate statement"),
        (ConcStmt::CaseGen, "case generate statement"),
    ];
    for (s, kind) in cases {
        let mut cx = ScoreContext::new(vec![]);
        let mut b = top();
        assert_eq!(cx.lower_conc_stmt(&s, &mut b), Err(Failure::Reported));
        assert_eq!(cx.diags.len(), 1);
        assert_eq!(cx.diags[0].severity, Severity::Bug);
        assert_eq!(
            cx.diags[0].message,
            format!("code generation for {} not implemented", kind)
        );
        assert!(cx.module.units.is_empty());
    }
}

#[test]
fn sequential_statements_are_not_lowered() {
    let mut cx = ScoreContext::new(vec![]);
    let mut b = top();
    assert_eq!(cx.lower_seq_stmt(&SeqStmt::Wait, &mut b), Err(Failure::Reported));
    assert_eq!(cx.diags[0].severity, Severity::Bug);
    assert_eq!(cx.diags[0].message, "code generation for wait statement not implemented");
}

#[test]
fn labeled_empty_process_becomes_unit() {
    let mut cx = ScoreContext::new(vec![]);
    let mut b = top();
    let p = ConcStmt::Process(ProcessStmt { label: Some("p0".to_string()), stmts: vec![] });
    assert_eq!(cx.lower_conc_stmt(&p, &mut b), Ok(()));
    assert_eq!(cx.module.units.len(), 1);
    let u = &cx.module.units[0];
    assert_eq!(u.name, "top_p0");
    assert_eq!(u.kind, UnitKind::Process);
    assert_eq!(u.blocks.len(), 1);
    assert_eq!(u.blocks[0].name, "entry");
    assert!(u.blocks[0].insts.is_empty());
    assert_eq!(b.unit.externs, vec!["top_p0".to_string()]);
    let insts = &b.unit.blocks[0].insts;
    assert_eq!(insts.len(), 1);
    match &insts[0] {
        Inst::Inst { unit, inputs, outputs } => {
            assert_eq!(*unit, ExtUnit { index: 0 });
            assert!(inputs.is_empty());
            assert!(outputs.is_empty());
        }
        other => panic!("unexpected {:?}", other),
    }
    assert!(cx.diags.is_empty());
}

#[test]
fn unlabeled_process_is_named_proc() {
    let mut cx = ScoreContext::new(vec![]);
    let mut b = top();
    let p = ProcessStmt { label: None, stmts: vec![] };
    assert_eq!(cx.lower_process(&p, &mut b), Ok(()));
    assert_eq!(cx.lower_process(&p, &mut b), Ok(()));
    assert_eq!(cx.module.units.len(), 2);
    assert_eq!(cx.module.units[0].name, "top_proc");
    assert_eq!(cx.module.units[1].name, "top_proc");
    assert_eq!(b.unit.externs.len(), 2);
    assert!(matches!(b.unit.blocks[0].insts[1], Inst::Inst { unit: ExtUnit { index: 1 }, .. }));
}

#[test]
fn failing_process_body_leaves_module_and_caller_untouched() {
    let mut cx = ScoreContext::new(vec![]);
    let mut b = top();
    let p = ProcessStmt { label: Some("p1".to_string()), stmts: vec![SeqStmt::If, SeqStmt::Null] };
    assert_eq!(cx.lower_process(&p, &mut b), Err(Failure::Reported));
    assert!(cx.module.units.is_empty());
    assert!(b.unit.externs.is_empty());
    assert!(b.unit.blocks[0].insts.is_empty());
    assert_eq!(cx.diags.len(), 1);
    assert_eq!(cx.diags[0].message, "code generation for if statement not implemented");
}

#[test]
fn codegen_dispatches_by_node_kind() {
    let mut cx = ScoreContext::new(vec![]);
    let mut b = top();
    assert_eq!(cx.codegen(&DeclInBlock::Type, &mut b), Ok(()));
    assert_eq!(
        cx.codegen(&ConcStmt::Process(ProcessStmt { label: None, stmts: vec![] }), &mut b),
        Ok(())
    );
    assert_eq!(cx.codegen(&SeqStmt::Null, &mut b), Err(Failure::Reported));
    assert_eq!(cx.module.units.len(), 1);
    let mut off = top();
    off.block = 3;
    assert_eq!(cx.codegen(&DeclInBlock::Const, &mut off), Err(Failure::Defect));
}
