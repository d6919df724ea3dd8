//! Symbol-table listing tests: each builds a source tree, runs the
//! analyser, and checks the listing bytes or the diagnostics.

use lcompiler::ast::Expression;
use lcompiler::ast::Instruction;
use lcompiler::ast::LeftValue;
use lcompiler::ast::Program;
use lcompiler::ast::Scalar;
use lcompiler::ast::Statement;
use lcompiler::ast::Type;
use lcompiler::ast::Variable;
use lcompiler::ast::Vector;
use lcompiler::diagnostic::Diagnostic;
use lcompiler::diagnostic::Error;

fn scal(id: &str) -> Scalar {
    Scalar(Type::Integer, id.to_string())
}

fn var_s(id: &str) -> Statement {
    Statement::DclVariable(Variable::Scalar(scal(id)))
}

fn var_v(id: &str, size: u32) -> Statement {
    Statement::DclVariable(Variable::Vector(Vector(Type::Integer, size, id.to_string())))
}

fn func(id: &str, args: Vec<Scalar>, vars: Vec<Scalar>, body: Vec<Instruction>) -> Statement {
    Statement::DclFunction(id.to_string(), args, vars, body)
}

fn num(v: i32) -> Expression {
    Expression::Value(v)
}

fn evar(id: &str) -> Expression {
    Expression::LeftValue(LeftValue::Variable(id.to_string()))
}

fn assign(id: &str, e: Expression) -> Instruction {
    Instruction::Affectation(LeftValue::Variable(id.to_string()), e)
}

fn errors_of(p: &Program) -> Vec<Diagnostic> {
    p.analyse().err().unwrap().diagnostics
}

const DASH: &str = "------------------------------------------\n";

#[test]
fn affect() {
    let p = Program(vec![var_s("x"), func("main", vec![], vec![], vec![assign("x", num(1))])]);
    let st = p.analyse().unwrap();
    let expected = format!(
        "{d}base = 2\nsommet = 2\n0 x GLOBALE ENTIER 0 1\n1 main GLOBALE FONCTION 0 0\n{d}",
        d = DASH
    );
    assert!(st.as_table() == expected, "affect");
}

#[test]
fn boucle() {
    let p = Program(vec![func(
        "main",
        vec![],
        vec![],
        vec![Instruction::While(num(1), vec![Instruction::WriteFunction(num(1))])],
    )]);
    let st = p.analyse().unwrap();
    let expected = format!(
        "{d}base = 1\nsommet = 1\n0 main GLOBALE FONCTION 0 0\n{d}",
        d = DASH
    );
    assert!(st.as_table() == expected, "boucle");
}

#[test]
fn expression() {
    let p = Program(vec![func(
        "main",
        vec![],
        vec![],
        vec![Instruction::WriteFunction(Expression::BinaryOperation(
            lcompiler::ast::BinaryOperator::Addidion,
            Box::new(num(1)),
            Box::new(num(2)),
        ))],
    )]);
    let st = p.analyse().unwrap();
    let expected = format!(
        "{d}base = 1\nsommet = 1\n0 main GLOBALE FONCTION 0 0\n{d}",
        d = DASH
    );
    assert!(st.as_table() == expected, "expression");
}

#[test]
fn max() {
    let p = Program(vec![
        func(
            "max",
            vec![scal("a"), scal("b")],
            vec![],
            vec![Instruction::If(
                Expression::BinaryOperation(
                    lcompiler::ast::BinaryOperator::LessThan,
                    Box::new(evar("b")),
                    Box::new(evar("a")),
                ),
                vec![Instruction::Return(evar("a"))],
                vec![Instruction::Return(evar("b"))],
            )],
        ),
        func("main", vec![], vec![], vec![]),
    ]);
    let st = p.analyse().unwrap();
    let expected = format!(
        "{d}base = 1\nsommet = 3\n0 max GLOBALE FONCTION 0 2\n1 a ARGUMENT ENTIER 0 1\n2 b ARGUMENT ENTIER 4 1\n{d}{d}base = 2\nsommet = 2\n0 max GLOBALE FONCTION 0 2\n1 main GLOBALE FONCTION 0 0\n{d}",
        d = DASH
    );
    assert!(st.as_table() == expected, "max");
}

#[test]
fn tri() {
    let p = Program(vec![
        var_v("t", 3),
        func(
            "main",
            vec![],
            vec![],
            vec![Instruction::Affectation(
                LeftValue::VariableAt("t".to_string(), Box::new(num(1))),
                num(2),
            )],
        ),
    ]);
    let st = p.analyse().unwrap();
    let expected = format!(
        "{d}base = 2\nsommet = 2\n0 t GLOBALE TABLEAU 0 3\n1 main GLOBALE FONCTION 0 0\n{d}",
        d = DASH
    );
    assert!(st.as_table() == expected, "tri");
}

#[test]
fn vide() {
    let p = Program(vec![func("main", vec![], vec![], vec![])]);
    let st = p.analyse().unwrap();
    let expected = format!(
        "{d}base = 1\nsommet = 1\n0 main GLOBALE FONCTION 0 0\n{d}",
        d = DASH
    );
    assert!(st.as_table() == expected, "vide");
}

#[test]
fn already_declared_argument_scalar_declare_local_scalar_err() {
    let p = Program(vec![
        func("f", vec![scal("a")], vec![scal("a")], vec![]),
        func("main", vec![], vec![], vec![]),
    ]);
    let errs = errors_of(&p);
    assert!(errs == vec![Diagnostic::Error(Error::AlreadyDeclared)],
        "already-declared-argument-scalar-declare-local-scalar-err");
}

#[test]
fn already_declared_global_scalar_declare_argument_scalar() {
    let p = Program(vec![
        var_s("x"),
        func("f", vec![scal("x")], vec![], vec![]),
        func("main", vec![], vec![], vec![]),
    ]);
    let st = p.analyse().unwrap();
    let expected = format!(
        "{d}base = 2\nsommet = 3\n0 x GLOBALE ENTIER 0 1\n1 f GLOBALE FONCTION 0 1\n2 x ARGUMENT ENTIER 0 1\n{d}{d}base = 3\nsommet = 3\n0 x GLOBALE ENTIER 0 1\n1 f GLOBALE FONCTION 0 1\n2 main GLOBALE FONCTION 0 0\n{d}",
        d = DASH
    );
    assert!(st.as_table() == expected, "already-declared-global-scalar-declare-argument-scalar");
}

#[test]
fn already_declared_global_scalar_declare_local_scalar() {
    let p = Program(vec![
        var_s("x"),
        func("main", vec![], vec![scal("x")], vec![]),
    ]);
    let st = p.analyse().unwrap();
    let expected = format!(
        "{d}base = 2\nsommet = 3\n0 x GLOBALE ENTIER 0 1\n1 main GLOBALE FONCTION 0 0\n2 x LOCALE ENTIER 0 1\n{d}",
        d = DASH
    );
    assert!(st.as_table() == expected, "already-declared-global-scalar-declare-local-scalar");
}

#[test]
fn already_declared_global_scalar_err() {
    let p = Program(vec![var_s("x"), var_s("x"), func("main", vec![], vec![], vec![])]);
    let errs = errors_of(&p);
    assert!(errs == vec![Diagnostic::Error(Error::AlreadyDeclared)],
        "already-declared-global-scalar-err");
}

#[test]
fn already_declared_global_vector_declare_argument_scalar() {
    let p = Program(vec![
        var_v("t", 3),
        func("f", vec![scal("t")], vec![], vec![]),
        func("main", vec![], vec![], vec![]),
    ]);
    let st = p.analyse().unwrap();
    let expected = format!(
        "{d}base = 2\nsommet = 3\n0 t GLOBALE TABLEAU 0 3\n1 f GLOBALE FONCTION 0 1\n2 t ARGUMENT ENTIER 0 1\n{d}{d}base = 3\nsommet = 3\n0 t GLOBALE TABLEAU 0 3\n1 f GLOBALE FONCTION 0 1\n2 main GLOBALE FONCTION 0 0\n{d}",
        d = DASH
    );
    assert!(st.as_table() == expected, "already-declared-global-vector-declare-argument-scalar");
}

#[test]
fn already_declared_global_vector_declare_local_scalar() {
    let p = Program(vec![
        var_v("t", 3),
        func("main", vec![], vec![scal("t")], vec![]),
    ]);
    let st = p.analyse().unwrap();
    let expected = format!(
        "{d}base = 2\nsommet = 3\n0 t GLOBALE TABLEAU 0 3\n1 main GLOBALE FONCTION 0 0\n2 t LOCALE ENTIER 0 1\n{d}",
        d = DASH
    );
    assert!(st.as_table() == expected, "already-declared-global-vector-declare-local-scalar");
}

#[test]
fn already_declared_global_vector_err() {
    let p = Program(vec![var_v("t", 3), var_v("t", 3), func("main", vec![], vec![], vec![])]);
    let errs = errors_of(&p);
    assert!(errs == vec![Diagnostic::Error(Error::AlreadyDeclared)],
        "already-declared-global-vector-err");
}

#[test]
fn already_declared_local_scalar_err() {
    let p = Program(vec![
        func("main", vec![], vec![scal("v"), scal("v")], vec![]),
    ]);
    let errs = errors_of(&p);
    assert!(errs == vec![Diagnostic::Error(Error::AlreadyDeclared)],
        "already-declared-local-scalar-err");
}

#[test]
fn vector_without_indice() {
    let p = Program(vec![
        var_v("t", 3),
        func("main", vec![], vec![], vec![Instruction::WriteFunction(evar("t"))]),
    ]);
    let errs = errors_of(&p);
    assert!(errs == vec![Diagnostic::Error(Error::VectorWithoutIndice)], "vector-without-indice");
}

#[test]
fn scalar_with_indice() {
    let p = Program(vec![
        var_s("x"),
        func(
            "main",
            vec![],
            vec![],
            vec![Instruction::Affectation(
                LeftValue::VariableAt("x".to_string(), Box::new(num(0))),
                num(1),
            )],
        ),
    ]);
    let errs = errors_of(&p);
    assert!(errs == vec![Diagnostic::Error(Error::ScalarWithIndice)], "scalar-with-indice");
}

#[test]
fn variable_shadowing() {
    // A local shadowing a global is permitted; the analysis succeeds.
    let p = Program(vec![
        var_s("x"),
        func("main", vec![], vec![scal("x")], vec![assign("x", num(1))]),
    ]);
    let st = p.analyse().unwrap();
    let expected = format!(
        "{d}base = 2\nsommet = 3\n0 x GLOBALE ENTIER 0 1\n1 main GLOBALE FONCTION 0 0\n2 x LOCALE ENTIER 0 1\n{d}",
        d = DASH
    );
    assert!(st.as_table() == expected, "variable-shadowing");
}

#[test]
fn declared_argument_scalar() {
    let p = Program(vec![
        func("f", vec![scal("a")], vec![], vec![Instruction::WriteFunction(evar("a"))]),
        func("main", vec![], vec![], vec![]),
    ]);
    let st = p.analyse().unwrap();
    let expected = format!(
        "{d}base = 1\nsommet = 2\n0 f GLOBALE FONCTION 0 1\n1 a ARGUMENT ENTIER 0 1\n{d}{d}base = 2\nsommet = 2\n0 f GLOBALE FONCTION 0 1\n1 main GLOBALE FONCTION 0 0\n{d}",
        d = DASH
    );
    assert!(st.as_table() == expected, "declared-argument-scalar");
}

#[test]
fn declared_global_scalar() {
    let p = Program(vec![var_s("x"), func("main", vec![], vec![], vec![assign("x", num(1))])]);
    let st = p.analyse().unwrap();
    let expected = format!(
        "{d}base = 2\nsommet = 2\n0 x GLOBALE ENTIER 0 1\n1 main GLOBALE FONCTION 0 0\n{d}",
        d = DASH
    );
    assert!(st.as_table() == expected, "declared-global-scalar");
}

#[test]
fn declared_global_vector() {
    let p = Program(vec![
        var_v("t", 3),
        func(
            "main",
            vec![],
            vec![],
            vec![Instruction::Affectation(
                LeftValue::VariableAt("t".to_string(), Box::new(num(0))),
                num(1),
            )],
        ),
    ]);
    let st = p.analyse().unwrap();
    let expected = format!(
        "{d}base = 2\nsommet = 2\n0 t GLOBALE TABLEAU 0 3\n1 main GLOBALE FONCTION 0 0\n{d}",
        d = DASH
    );
    assert!(st.as_table() == expected, "declared-global-vector");
}

#[test]
fn declared_local_scalar() {
    let p = Program(vec![
        func("main", vec![], vec![scal("v")], vec![assign("v", num(1))]),
    ]);
    let st = p.analyse().unwrap();
    let expected = format!(
        "{d}base = 1\nsommet = 2\n0 main GLOBALE FONCTION 0 0\n1 v LOCALE ENTIER 0 1\n{d}",
        d = DASH
    );
    assert!(st.as_table() == expected, "declared-local-scalar");
}
