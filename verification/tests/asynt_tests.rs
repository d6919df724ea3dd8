//! Tree-listing tests: each builds a source tree and checks the printed
//! bytes of its parenthesised form.

use lcompiler::ast::BinaryOperator;
use lcompiler::ast::CallFunction;
use lcompiler::ast::Expression;
use lcompiler::ast::Instruction;
use lcompiler::ast::LeftValue;
use lcompiler::ast::Program;
use lcompiler::ast::Scalar;
use lcompiler::ast::Statement;
use lcompiler::ast::Type;
use lcompiler::ast::UnaryOperator;
use lcompiler::ast::Variable;
use lcompiler::ast::Vector;

fn scal(id: &str) -> Scalar {
    Scalar(Type::Integer, id.to_string())
}

fn var_s(id: &str) -> Statement {
    Statement::DclVariable(Variable::Scalar(scal(id)))
}

fn var_v(id: &str, size: u32) -> Statement {
    Statement::DclVariable(Variable::Vector(Vector(Type::Integer, size, id.to_string())))
}

fn func(id: &str, args: Vec<Scalar>, vars: Vec<Scalar>, body: Vec<Instruction>) -> Statement {
    Statement::DclFunction(id.to_string(), args, vars, body)
}

fn num(v: i32) -> Expression {
    Expression::Value(v)
}

fn evar(id: &str) -> Expression {
    Expression::LeftValue(LeftValue::Variable(id.to_string()))
}

fn assign(id: &str, e: Expression) -> Instruction {
    Instruction::Affectation(LeftValue::Variable(id.to_string()), e)
}

fn write(e: Expression) -> Instruction {
    Instruction::WriteFunction(e)
}

fn bin(o: BinaryOperator, a: Expression, b: Expression) -> Expression {
    Expression::BinaryOperation(o, Box::new(a), Box::new(b))
}

#[test]
fn tests_affect() {
    let p = Program(vec![var_s("x"), func("main", vec![], vec![], vec![assign("x", num(1))])]);
    let expected = "<prog>
  <l_dec>
    <varDec>x</varDec>
  </l_dec>
  <l_dec>
    <foncDec>
      main
      <l_dec>
      </l_dec>
      <l_dec>
      </l_dec>
      <l_instr>
        <instr_affect>
          <var_simple>x</var_simple>
          <intExp>1</intExp>
        </instr_affect>
      </l_instr>
    </foncDec>
  </l_dec>
</prog>
";
    assert!(p.to_asynt(0) == expected, "affect");
}

#[test]
fn tests_boucle() {
    let p = Program(vec![func(
        "main",
        vec![],
        vec![],
        vec![Instruction::While(num(1), vec![write(num(1))])],
    )]);
    let expected = "<prog>
  <l_dec>
  </l_dec>
  <l_dec>
    <foncDec>
      main
      <l_dec>
      </l_dec>
      <l_dec>
      </l_dec>
      <l_instr>
        <instr_tantque>
          <intExp>1</intExp>
          <l_instr>
            <instr_ecrire>
              <intExp>1</intExp>
            </instr_ecrire>
          </l_instr>
        </instr_tantque>
      </l_instr>
    </foncDec>
  </l_dec>
</prog>
";
    assert!(p.to_asynt(0) == expected, "boucle");
}

#[test]
fn tests_expression() {
    let p = Program(vec![func(
        "main",
        vec![],
        vec![],
        vec![write(bin(BinaryOperator::Addidion, num(1), num(2)))],
    )]);
    let expected = "<prog>
  <l_dec>
  </l_dec>
  <l_dec>
    <foncDec>
      main
      <l_dec>
      </l_dec>
      <l_dec>
      </l_dec>
      <l_instr>
        <instr_ecrire>
          <opExp>
            plus
            <intExp>1</intExp>
            <intExp>2</intExp>
          </opExp>
        </instr_ecrire>
      </l_instr>
    </foncDec>
  </l_dec>
</prog>
";
    assert!(p.to_asynt(0) == expected, "expression");
}

#[test]
fn tests_max() {
    let p = Program(vec![func(
        "max",
        vec![scal("a"), scal("b")],
        vec![],
        vec![Instruction::If(
            bin(BinaryOperator::LessThan, evar("b"), evar("a")),
            vec![Instruction::Return(evar("a"))],
            vec![Instruction::Return(evar("b"))],
        )],
    )]);
    let expected = "<prog>
  <l_dec>
  </l_dec>
  <l_dec>
    <foncDec>
      max
      <l_dec>
        <varDec>a</varDec>
        <varDec>b</varDec>
      </l_dec>
      <l_dec>
      </l_dec>
      <l_instr>
        <instr_si>
          <opExp>
            inf
            <varExp>
              <var_simple>b</var_simple>
            </varExp>
            <varExp>
              <var_simple>a</var_simple>
            </varExp>
          </opExp>
          <l_instr>
            <instr_retour>
              <varExp>
                <var_simple>a</var_simple>
              </varExp>
            </instr_retour>
          </l_instr>
          <l_instr>
            <instr_retour>
              <varExp>
                <var_simple>b</var_simple>
              </varExp>
            </instr_retour>
          </l_instr>
        </instr_si>
      </l_instr>
    </foncDec>
  </l_dec>
</prog>
";
    assert!(p.to_asynt(0) == expected, "max");
}

#[test]
fn tests_tri() {
    let p = Program(vec![
        var_v("t", 3),
        func(
            "main",
            vec![],
            vec![],
            vec![Instruction::Affectation(
                LeftValue::VariableAt("t".to_string(), Box::new(num(0))),
                num(1),
            )],
        ),
    ]);
    let expected = "<prog>
  <l_dec>
    <tabDec>t[3]</tabDec>
  </l_dec>
  <l_dec>
    <foncDec>
      main
      <l_dec>
      </l_dec>
      <l_dec>
      </l_dec>
      <l_instr>
        <instr_affect>
          <var_indicee>
            <var_base_tableau>t</var_base_tableau>
            <intExp>0</intExp>
          </var_indicee>
          <intExp>1</intExp>
        </instr_affect>
      </l_instr>
    </foncDec>
  </l_dec>
</prog>
";
    assert!(p.to_asynt(0) == expected, "tri");
}

#[test]
fn tests_affect_err() {
    // An assignment to an undeclared name fails the analysis.
    let p = Program(vec![func("main", vec![], vec![], vec![assign("x", num(1))])]);
    assert!(p.analyse().is_err(), "affect-err");
}

#[test]
fn appel() {
    let p = Program(vec![
        func("f", vec![], vec![], vec![]),
        func(
            "main",
            vec![],
            vec![],
            vec![Instruction::CallFunction(CallFunction("f".to_string(), vec![]))],
        ),
    ]);
    let expected = "<prog>
  <l_dec>
  </l_dec>
  <l_dec>
    <foncDec>
      f
      <l_dec>
      </l_dec>
      <l_dec>
      </l_dec>
    </foncDec>
    <foncDec>
      main
      <l_dec>
      </l_dec>
      <l_dec>
      </l_dec>
      <l_instr>
        <instr_appel>
          <appel>
            f
            <l_exp>
            </l_exp>
          </appel>
        </instr_appel>
      </l_instr>
    </foncDec>
  </l_dec>
</prog>
";
    assert!(p.to_asynt(0) == expected, "appel");
}

#[test]
fn associativite() {
    let p = Program(vec![func(
        "main",
        vec![],
        vec![],
        vec![write(bin(
            BinaryOperator::Subtraction,
            bin(BinaryOperator::Subtraction, num(1), num(2)),
            num(3),
        ))],
    )]);
    let out = p.to_asynt(0);
    let inner = "          <opExp>
            moins
            <opExp>
              moins
              <intExp>1</intExp>
              <intExp>2</intExp>
            </opExp>
            <intExp>3</intExp>
          </opExp>
";
    assert!(out.contains(inner), "associativite");
}

#[test]
fn calculette() {
    let p = Program(vec![func(
        "main",
        vec![],
        vec![],
        vec![write(bin(
            BinaryOperator::Addidion,
            num(1),
            bin(BinaryOperator::Multiplication, num(2), num(3)),
        ))],
    )]);
    let out = p.to_asynt(0);
    let inner = "          <opExp>
            plus
            <intExp>1</intExp>
            <opExp>
              fois
              <intExp>2</intExp>
              <intExp>3</intExp>
            </opExp>
          </opExp>
";
    assert!(out.contains(inner), "calculette");
}

#[test]
fn procedure_arg() {
    let p = Program(vec![func("f", vec![scal("a")], vec![], vec![write(evar("a"))])]);
    let out = p.to_asynt(0);
    assert!(out.contains("      <l_dec>\n        <varDec>a</varDec>\n      </l_dec>\n"), "procedure_arg");
}

#[test]
fn procedure() {
    let p = Program(vec![
        func("f", vec![], vec![], vec![write(num(1))]),
        func(
            "main",
            vec![],
            vec![],
            vec![Instruction::CallFunction(CallFunction("f".to_string(), vec![]))],
        ),
    ]);
    let out = p.to_asynt(0);
    assert!(out.contains("<instr_appel>"), "procedure");
    assert!(out.contains("<instr_ecrire>"), "procedure");
}

#[test]
fn procedure_retour() {
    let p = Program(vec![func("f", vec![], vec![], vec![Instruction::Return(num(0))])]);
    let out = p.to_asynt(0);
    assert!(out.contains("      <l_instr>
        <instr_retour>
          <intExp>0</intExp>
        </instr_retour>
      </l_instr>
"), "procedure_retour");
}

#[test]
fn procedure_varloc() {
    let p = Program(vec![func("f", vec![], vec![scal("v")], vec![assign("v", num(1))])]);
    let out = p.to_asynt(0);
    assert!(out.contains("      <l_dec>\n        <varDec>v</varDec>\n      </l_dec>\n"), "procedure_varloc");
}

#[test]
fn si() {
    let p = Program(vec![func(
        "main",
        vec![],
        vec![],
        vec![Instruction::If(num(1), vec![write(num(1))], vec![])],
    )]);
    let out = p.to_asynt(0);
    let inner = "        <instr_si>
          <intExp>1</intExp>
          <l_instr>
            <instr_ecrire>
              <intExp>1</intExp>
            </instr_ecrire>
          </l_instr>
        </instr_si>
";
    assert!(out.contains(inner), "si");
}

#[test]
fn sinon() {
    let p = Program(vec![func(
        "main",
        vec![],
        vec![],
        vec![Instruction::If(num(1), vec![write(num(1))], vec![write(num(2))])],
    )]);
    let out = p.to_asynt(0);
    let inner = "        <instr_si>
          <intExp>1</intExp>
          <l_instr>
            <instr_ecrire>
              <intExp>1</intExp>
            </instr_ecrire>
          </l_instr>
          <l_instr>
            <instr_ecrire>
              <intExp>2</intExp>
            </instr_ecrire>
          </l_instr>
        </instr_si>
";
    assert!(out.contains(inner), "sinon");
}

#[test]
fn tableau2() {
    let p = Program(vec![
        var_v("t", 2),
        func(
            "main",
            vec![],
            vec![],
            vec![Instruction::Affectation(
                LeftValue::VariableAt(
                    "t".to_string(),
                    Box::new(Expression::LeftValue(LeftValue::VariableAt(
                        "t".to_string(),
                        Box::new(num(1)),
                    ))),
                ),
                num(1),
            )],
        ),
    ]);
    let out = p.to_asynt(0);
    let inner = "          <var_indicee>
            <var_base_tableau>t</var_base_tableau>
            <varExp>
              <var_indicee>
                <var_base_tableau>t</var_base_tableau>
                <intExp>1</intExp>
              </var_indicee>
            </varExp>
          </var_indicee>
";
    assert!(out.contains(inner), "tableau2");
}

#[test]
fn tableau() {
    let p = Program(vec![
        var_v("t", 3),
        func(
            "main",
            vec![],
            vec![],
            vec![Instruction::Affectation(
                LeftValue::VariableAt("t".to_string(), Box::new(num(1))),
                num(2),
            )],
        ),
    ]);
    let out = p.to_asynt(0);
    assert!(out.contains("<tabDec>t[3]</tabDec>"), "tableau");
    assert!(out.contains("<var_base_tableau>t</var_base_tableau>"), "tableau");
}

#[test]
fn tantque0() {
    let p = Program(vec![func(
        "main",
        vec![],
        vec![],
        vec![Instruction::While(num(0), vec![])],
    )]);
    let out = p.to_asynt(0);
    let inner = "        <instr_tantque>
          <intExp>0</intExp>
        </instr_tantque>
";
    assert!(out.contains(inner), "tantque0");
}

#[test]
fn tantque() {
    let p = Program(vec![func(
        "main",
        vec![],
        vec![],
        vec![Instruction::While(num(1), vec![write(num(1))])],
    )]);
    let out = p.to_asynt(0);
    assert!(out.contains("<instr_tantque>"), "tantque");
    assert!(out.contains("<instr_ecrire>"), "tantque");
}

#[test]
fn lexunits() {
    let p = Program(vec![
        var_s("x"),
        func(
            "main",
            vec![],
            vec![],
            vec![
                assign("x", Expression::ReadFunction),
                write(Expression::UnaryOperation(
                    UnaryOperator::Not,
                    Box::new(bin(BinaryOperator::Equal, evar("x"), num(0))),
                )),
            ],
        ),
    ]);
    let out = p.to_asynt(0);
    assert!(out.contains("<lireExp>"), "lexunits");
    assert!(out.contains("non\n"), "lexunits");
    assert!(out.contains("egal\n"), "lexunits");
}

#[test]
fn factorielle() {
    let p = Program(vec![func(
        "fact",
        vec![scal("n")],
        vec![],
        vec![Instruction::If(
            bin(BinaryOperator::LessThan, evar("n"), num(2)),
            vec![Instruction::Return(num(1))],
            vec![Instruction::Return(bin(
                BinaryOperator::Multiplication,
                evar("n"),
                Expression::CallFunction(CallFunction(
                    "fact".to_string(),
                    vec![bin(BinaryOperator::Subtraction, evar("n"), num(1))],
                )),
            ))],
        )],
    )]);
    let out = p.to_asynt(0);
    assert!(out.contains("<appelExp>"), "factorielle");
    assert!(out.contains("fois\n"), "factorielle");
}

#[test]
fn fibo() {
    let p = Program(vec![func(
        "fibo",
        vec![scal("n")],
        vec![],
        vec![Instruction::If(
            bin(BinaryOperator::LessThan, evar("n"), num(2)),
            vec![Instruction::Return(evar("n"))],
            vec![Instruction::Return(bin(
                BinaryOperator::Addidion,
                Expression::CallFunction(CallFunction(
                    "fibo".to_string(),
                    vec![bin(BinaryOperator::Subtraction, evar("n"), num(1))],
                )),
                Expression::CallFunction(CallFunction(
                    "fibo".to_string(),
                    vec![bin(BinaryOperator::Subtraction, evar("n"), num(2))],
                )),
            ))],
        )],
    )]);
    let out = p.to_asynt(0);
    assert!(out.matches("<appelExp>").count() == 2, "fibo");
}

#[test]
fn pgcd() {
    let p = Program(vec![func(
        "pgcd",
        vec![scal("a"), scal("b")],
        vec![],
        vec![Instruction::While(
            Expression::UnaryOperation(
                UnaryOperator::Not,
                Box::new(bin(BinaryOperator::Equal, evar("a"), evar("b"))),
            ),
            vec![Instruction::If(
                bin(BinaryOperator::LessThan, evar("a"), evar("b")),
                vec![assign("b", bin(BinaryOperator::Subtraction, evar("b"), evar("a")))],
                vec![assign("a", bin(BinaryOperator::Subtraction, evar("a"), evar("b")))],
            )],
        )],
    )]);
    let out = p.to_asynt(0);
    assert!(out.contains("<instr_tantque>"), "pgcd");
    assert!(out.contains("<instr_si>"), "pgcd");
}

#[test]
fn sommeneg() {
    let p = Program(vec![func(
        "main",
        vec![],
        vec![],
        vec![write(num(-5))],
    )]);
    let out = p.to_asynt(0);
    assert!(out.contains("<intExp>-5</intExp>"), "sommeneg");
}

#[test]
fn lex_err() {
    // A bare vector name where a scalar is needed fails the analysis.
    let p = Program(vec![
        var_v("t", 3),
        func("main", vec![], vec![], vec![write(evar("t"))]),
    ]);
    assert!(p.analyse().is_err(), "lex-err");
}

#[test]
fn synt_err() {
    // Indexing a scalar fails the analysis.
    let p = Program(vec![
        var_s("x"),
        func(
            "main",
            vec![],
            vec![],
            vec![Instruction::Affectation(
                LeftValue::VariableAt("x".to_string(), Box::new(num(0))),
                num(1),
            )],
        ),
    ]);
    assert!(p.analyse().is_err(), "synt-err");
}

#[test]
fn extra() {
    // A declaration after the functions still prints in the first group.
    let p = Program(vec![
        func("main", vec![], vec![], vec![]),
        var_s("z"),
    ]);
    let expected = "<prog>
  <l_dec>
    <varDec>z</varDec>
  </l_dec>
  <l_dec>
    <foncDec>
      main
      <l_dec>
      </l_dec>
      <l_dec>
      </l_dec>
    </foncDec>
  </l_dec>
</prog>
";
    assert!(p.to_asynt(0) == expected, "extra");
}

#[test]
fn ordre() {
    // Groups keep the relative order of their own members.
    let p = Program(vec![
        var_s("a"),
        func("f", vec![], vec![], vec![]),
        var_s("b"),
        func("main", vec![], vec![], vec![]),
    ]);
    let out = p.to_asynt(0);
    let a = out.find("<varDec>a</varDec>").unwrap();
    let b = out.find("<varDec>b</varDec>").unwrap();
    let f = out.find("      f\n").unwrap();
    let m = out.find("      main\n").unwrap();
    assert!(a < b && b < f && f < m, "ordre");
}

#[test]
fn three_three_a() {
    // The generated three-address text for a one-assignment program.
    let p = Program(vec![var_s("x"), func("main", vec![], vec![], vec![assign("x", num(1))])]);
    let st = p.analyse().unwrap();
    let tac = p.gen_three_address_code(&st, 0);
    let out = tac.three_a();
    assert!(out.contains("alloc 4 vx"), "33a");
    assert!(out.contains(" >fmain"), "33a");
    assert!(out.contains("vx = 1"), "33a");
    assert!(out.contains("fend"), "33a");
}

#[test]
fn tests_tri_ugly() {
    // A no-op in a body prints nothing.
    let p = Program(vec![func(
        "main",
        vec![],
        vec![],
        vec![Instruction::NOP, write(num(1)), Instruction::NOP],
    )]);
    let out = p.to_asynt(0);
    let inner = "      <l_instr>
        <instr_ecrire>
          <intExp>1</intExp>
        </instr_ecrire>
      </l_instr>
";
    assert!(out.contains(inner), "tri_ugly");
}

#[test]
fn tests_issue_1() {
    // A call with arguments prints each argument in the list.
    let p = Program(vec![func(
        "main",
        vec![],
        vec![],
        vec![Instruction::CallFunction(CallFunction(
            "f".to_string(),
            vec![num(1), num(2)],
        ))],
    )]);
    let out = p.to_asynt(0);
    let inner = "            <l_exp>
              <intExp>1</intExp>
              <intExp>2</intExp>
            </l_exp>
";
    assert!(out.contains(inner), "issue_1");
}

#[test]
fn tests_issue_2() {
    let p = Program(vec![func(
        "main",
        vec![],
        vec![],
        vec![write(Expression::UnaryOperation(UnaryOperator::Not, Box::new(num(0))))],
    )]);
    let out = p.to_asynt(0);
    let inner = "          <opExp>
            non
            <intExp>0</intExp>
          </opExp>
";
    assert!(out.contains(inner), "issue_2");
}

#[test]
fn tests_issue_3() {
    let p = Program(vec![
        var_s("x"),
        func("main", vec![], vec![], vec![assign("x", Expression::ReadFunction)]),
    ]);
    let out = p.to_asynt(0);
    let inner = "          <lireExp>
          </lireExp>
";
    assert!(out.contains(inner), "issue_3");
}

#[test]
fn tests_issue_4() {
    // A call nested inside an expression.
    let p = Program(vec![func(
        "main",
        vec![],
        vec![],
        vec![write(bin(
            BinaryOperator::Addidion,
            num(1),
            Expression::CallFunction(CallFunction("f".to_string(), vec![])),
        ))],
    )]);
    let out = p.to_asynt(0);
    assert!(out.contains("<appelExp>"), "issue_4");
}

#[test]
fn tests_alone_read_call() {
    let p = Program(vec![
        var_s("x"),
        func("main", vec![], vec![], vec![assign("x", Expression::ReadFunction)]),
    ]);
    let out = p.to_asynt(0);
    assert!(out.contains("<lireExp>"), "alone_read_call");
}
