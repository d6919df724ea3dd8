//! End-to-end scenarios: literal source trees with their expected symbol
//! tables, three-address code, or diagnostics.

use lcompiler::ast::BinaryOperator;
use lcompiler::ast::CallFunction;
use lcompiler::ast::Expression;
use lcompiler::ast::Instruction;
use lcompiler::ast::LeftValue;
use lcompiler::ast::Program;
use lcompiler::ast::Scalar;
use lcompiler::ast::Statement;
use lcompiler::ast::Type;
use lcompiler::ast::Variable;
use lcompiler::ast::Vector;
use lcompiler::diagnostic::Diagnostic;
use lcompiler::diagnostic::Error;
use lcompiler::symbol_table::SymbolKind;
use lcompiler::three_address_code::CT;
use lcompiler::three_address_code::CTV;
use lcompiler::three_address_code::InstructionKind;
use lcompiler::three_address_code::TV;
use lcompiler::three_address_code::Temp;
use lcompiler::token::Token;

fn scal(id: &str) -> Scalar {
    Scalar(Type::Integer, id.to_string())
}

fn var_s(id: &str) -> Statement {
    Statement::DclVariable(Variable::Scalar(scal(id)))
}

fn var_v(id: &str, size: u32) -> Statement {
    Statement::DclVariable(Variable::Vector(Vector(Type::Integer, size, id.to_string())))
}

fn func(id: &str, args: Vec<Scalar>, vars: Vec<Scalar>, body: Vec<Instruction>) -> Statement {
    Statement::DclFunction(id.to_string(), args, vars, body)
}

fn num(v: i32) -> Expression {
    Expression::Value(v)
}

fn assign(id: &str, e: Expression) -> Instruction {
    Instruction::Affectation(LeftValue::Variable(id.to_string()), e)
}

fn write(e: Expression) -> Instruction {
    Instruction::WriteFunction(e)
}

/// A global, one assignment in `main`: the table holds `x` at address 0
/// and `main` with an empty child table; the code allocates, opens the
/// function, stores the constant, and closes it.
#[test]
fn global_assignment_full_pipeline() {
    let p = Program(vec![var_s("x"), func("main", vec![], vec![], vec![assign("x", num(1))])]);
    let st = p.analyse().unwrap();
    assert_eq!(st.tables.len(), 2);
    let g = &st.tables[0];
    assert_eq!(g.symbols.len(), 2);
    assert_eq!(g.symbols[0].id, "x");
    assert_eq!(g.symbols[0].address, 0);
    assert!(matches!(g.symbols[0].kind, SymbolKind::Scalar { .. }));
    assert_eq!(g.symbols[1].id, "main");
    assert!(matches!(
        g.symbols[1].kind,
        SymbolKind::Function { nb_arguments: 0, symbol_table: 1 }
    ));
    assert_eq!(st.tables[1].symbols.len(), 0);

    let tac = p.gen_three_address_code(&st, 0);
    let expected = format!(
        "0000{:10} : {:50}\n0001 >{:8} : {:50}; début fonction main\n0002{:10} : {:50}\n0003{:10} : {:50}; fin fonction main\n",
        "", "alloc 4 vx", "fmain", "fbegin", "", "vx = 1", "", "fend"
    );
    assert_eq!(tac.three_a(), expected);
}

/// A conditional lowers to a guard jump to the else label, the then
/// branch, a jump past the else, and the two labelled no-ops.
#[test]
fn conditional_lowering_labels() {
    let p = Program(vec![func(
        "main",
        vec![],
        vec![],
        vec![Instruction::If(num(1), vec![write(num(1))], vec![write(num(2))])],
    )]);
    let st = p.analyse().unwrap();
    let tac = p.gen_three_address_code(&st, 0);
    let ins = &tac.instructions;
    // fbegin, jump-if to e0, write 1, jump e1, nop@e0, write 2, nop@e1, fend
    assert_eq!(ins.len(), 8);
    match &ins[1].kind {
        InstructionKind::JumpIf { label, .. } => assert_eq!(label.label(), "e0"),
        k => panic!("unexpected kind {:?}", k),
    }
    assert!(matches!(&ins[2].kind, InstructionKind::WriteFunction { .. }));
    match &ins[3].kind {
        InstructionKind::Jump { label } => assert_eq!(label.label(), "e1"),
        k => panic!("unexpected kind {:?}", k),
    }
    assert_eq!(ins[4].label.as_ref().unwrap().label(), "e0");
    assert!(matches!(&ins[4].kind, InstructionKind::NOP));
    assert!(matches!(&ins[5].kind, InstructionKind::WriteFunction { .. }));
    assert_eq!(ins[6].label.as_ref().unwrap().label(), "e1");
    assert!(matches!(&ins[6].kind, InstructionKind::NOP));
}

/// A loop opens with its labelled no-op, guards with a jump to the end
/// label, and jumps back to the start.
#[test]
fn loop_lowering_labels() {
    let p = Program(vec![func(
        "main",
        vec![],
        vec![],
        vec![Instruction::While(num(1), vec![write(num(1))])],
    )]);
    let st = p.analyse().unwrap();
    let tac = p.gen_three_address_code(&st, 0);
    let ins = &tac.instructions;
    // fbegin, nop@e0, jump-if to e1, write 1, jump e0, nop@e1, fend
    assert_eq!(ins.len(), 7);
    assert_eq!(ins[1].label.as_ref().unwrap().label(), "e0");
    assert!(matches!(&ins[1].kind, InstructionKind::NOP));
    match &ins[2].kind {
        InstructionKind::JumpIf { label, .. } => assert_eq!(label.label(), "e1"),
        k => panic!("unexpected kind {:?}", k),
    }
    assert!(matches!(&ins[3].kind, InstructionKind::WriteFunction { .. }));
    match &ins[4].kind {
        InstructionKind::Jump { label } => assert_eq!(label.label(), "e0"),
        k => panic!("unexpected kind {:?}", k),
    }
    assert_eq!(ins[5].label.as_ref().unwrap().label(), "e1");
}

/// A vector store carries its constant index on the operand, and the
/// allocation is four bytes per element.
#[test]
fn vector_store_operand() {
    let p = Program(vec![
        var_v("t", 3),
        func(
            "main",
            vec![],
            vec![],
            vec![Instruction::Affectation(
                LeftValue::VariableAt("t".to_string(), Box::new(num(1))),
                num(2),
            )],
        ),
    ]);
    let st = p.analyse().unwrap();
    let tac = p.gen_three_address_code(&st, 0);
    match &tac.instructions[0].kind {
        InstructionKind::Allocation { size, .. } => assert_eq!(size.constant(), 12),
        k => panic!("unexpected kind {:?}", k),
    }
    match &tac.instructions[2].kind {
        InstructionKind::Affectation { result: TV::V(v), .. } => {
            assert_eq!(v.id(), "vt");
            match v.indice() {
                Some(CT::C(c)) => assert_eq!(c.constant(), 1),
                other => panic!("unexpected index {:?}", other),
            }
        },
        k => panic!("unexpected kind {:?}", k),
    }
}

/// Call lowering reserves the return slot with `alloc 1`, then calls the
/// function's label into a fresh temp.
#[test]
fn call_lowering() {
    let p = Program(vec![
        func("f", vec![], vec![], vec![Instruction::Return(num(0))]),
        func(
            "main",
            vec![],
            vec![],
            vec![Instruction::CallFunction(CallFunction("f".to_string(), vec![]))],
        ),
    ]);
    let st = p.analyse().unwrap();
    let tac = p.gen_three_address_code(&st, 0);
    let out = tac.three_a();
    assert!(out.contains("alloc 1"));
    assert!(out.contains(" = ff"));
    // An arity mismatch is flagged by the analyser.
    let bad = Program(vec![
        func("f", vec![], vec![], vec![Instruction::Return(num(0))]),
        func(
            "main",
            vec![],
            vec![],
            vec![Instruction::CallFunction(CallFunction("f".to_string(), vec![num(1)]))],
        ),
    ]);
    let errs = bad.analyse().err().unwrap().diagnostics;
    assert_eq!(errs, vec![Diagnostic::Error(Error::InvalidFunctionArguments)]);
}

/// A doubled global declaration yields one conflict diagnostic, and the
/// missing `main` is still reported after the pass.
#[test]
fn double_declaration_diagnostics() {
    let p = Program(vec![var_s("x"), var_s("x")]);
    let errs = p.analyse().err().unwrap().diagnostics;
    assert_eq!(
        errs,
        vec![
            Diagnostic::Error(Error::AlreadyDeclared),
            Diagnostic::Error(Error::MainUndeclared),
        ]
    );
}

/// A program without `main` yields exactly that one diagnostic.
#[test]
fn main_missing_alone() {
    let p = Program(vec![var_s("x")]);
    let errs = p.analyse().err().unwrap().diagnostics;
    assert_eq!(errs, vec![Diagnostic::Error(Error::MainUndeclared)]);
}

/// An undeclared name in an expression is flagged.
#[test]
fn undeclared_use() {
    let p = Program(vec![func("main", vec![], vec![], vec![write(Expression::LeftValue(
        LeftValue::Variable("y".to_string()),
    ))])]);
    let errs = p.analyse().err().unwrap().diagnostics;
    assert_eq!(errs, vec![Diagnostic::Error(Error::Undeclared)]);
}

/// Each temp's recorded last use is the index of the last instruction
/// reading it.
#[test]
fn last_use_records() {
    let p = Program(vec![func(
        "main",
        vec![],
        vec![],
        vec![write(Expression::BinaryOperation(
            BinaryOperator::Addidion,
            Box::new(Expression::BinaryOperation(
                BinaryOperator::Addidion,
                Box::new(num(1)),
                Box::new(num(2)),
            )),
            Box::new(num(3)),
        ))],
    )]);
    let st = p.analyse().unwrap();
    let tac = p.gen_three_address_code(&st, 0);
    // fbegin, t0 = 1 + 2, t1 = t0 + 3, write t1, fend
    assert_eq!(tac.last_uses, vec![2, 3]);
    assert_eq!(tac.last_use(&Temp::new(0)), 2);
    assert_eq!(tac.last_use(&Temp::new(1)), 3);
}

/// The conjunction lowers to the short-circuit form: the guard jump on the
/// first operand targets the closing label, which stands after everything
/// emitted for the second operand.
#[test]
fn short_circuit_and() {
    let p = Program(vec![
        var_s("x"),
        func(
            "main",
            vec![],
            vec![],
            vec![write(Expression::BinaryOperation(
                BinaryOperator::And,
                Box::new(num(0)),
                Box::new(Expression::LeftValue(LeftValue::Variable("x".to_string()))),
            ))],
        ),
    ]);
    let st = p.analyse().unwrap();
    let tac = p.gen_three_address_code(&st, 0);
    let ins = &tac.instructions;
    // alloc, fbegin, t0 = 0, if 0 == 0 goto e0, if vx == 0 goto e0,
    // t0 = 1, nop@e0, write t0, fend
    let guard = match &ins[3].kind {
        InstructionKind::JumpIf { label, .. } => label.label().clone(),
        k => panic!("unexpected kind {:?}", k),
    };
    assert_eq!(guard, "e0");
    let closing = ins
        .iter()
        .position(|i| i.label.as_ref().map(|l| l.label() == &guard).unwrap_or(false))
        .unwrap();
    let second_operand = 4;
    match &ins[second_operand].kind {
        InstructionKind::JumpIf { left, .. } => match left {
            CTV::V(v) => assert_eq!(v.id(), "vx"),
            other => panic!("unexpected operand {:?}", other),
        },
        k => panic!("unexpected kind {:?}", k),
    }
    assert!(closing > second_operand);
    // The closing label is defined exactly once.
    let definitions = ins
        .iter()
        .filter(|i| i.label.as_ref().map(|l| l.label() == &guard).unwrap_or(false))
        .count();
    assert_eq!(definitions, 1);
}

/// An expression renders to the text the code comments quote.
#[test]
fn expression_rendering() {
    let e = Expression::BinaryOperation(
        BinaryOperator::Addidion,
        Box::new(num(1)),
        Box::new(Expression::BinaryOperation(
            BinaryOperator::Multiplication,
            Box::new(num(2)),
            Box::new(num(-3)),
        )),
    );
    assert_eq!(e.to_text(), "(1 + (2 * -3))");
    let c = Expression::CallFunction(CallFunction("f".to_string(), vec![num(1), num(2)]));
    assert_eq!(c.to_text(), "f(1, 2)");
}

/// Tokens print their class and their value.
#[test]
fn token_rendering() {
    assert_eq!(Token::Number(-7).lex_name(), "nombre");
    assert_eq!(Token::Number(-7).lex_value(), "-7");
    assert_eq!(Token::Id("abc".to_string()).lex_name(), "identificateur");
    assert_eq!(Token::Id("abc".to_string()).lex_value(), "abc");
    assert_eq!(Token::While.lex_name(), "mot_clef");
    assert_eq!(Token::While.lex_value(), "tantque");
    assert_eq!(Token::Semicolon.lex_name(), "symbole");
    assert_eq!(Token::Semicolon.lex_value(), "POINT_VIRGULE");
}

/// The visibility chain lists the nearest declarations first.
#[test]
fn visibility_order() {
    let p = Program(vec![
        var_s("x"),
        func("main", vec![scal("a")], vec![scal("v")], vec![]),
    ]);
    let st = p.analyse().unwrap();
    let seen = st.iter(1);
    let ids: Vec<&str> = seen.iter().map(|s| s.id.as_str()).collect();
    assert_eq!(ids, vec!["v", "a", "main", "x"]);
}
