//! The parenthesised tree listing: every node prints as a tag pair, with
//! two more columns of indent per level. Variable declarations print first,
//! then the functions, as the grammar groups them.

use vstd::prelude::*;
use vstd::string::StringExecFns;
use crate::ast::CallFunction;
use crate::ast::Expression;
use crate::ast::Instruction;
use crate::ast::LeftValue;
use crate::ast::Program;
use crate::ast::Scalar;
use crate::ast::Statement;
use crate::ast::Variable;
use crate::ast::Vector;
use crate::ast::BinaryOperator;
use crate::text::int_digits;
use crate::text::i64_to_string;
use crate::text::u64_to_string;
use crate::three_a::spaces;

verus! {

/// The indent one level deeper.
pub open spec fn deeper(ind: int) -> int {
    if ind + 2 <= usize::MAX {
        ind + 2
    } else {
        ind
    }
}

/// The printed word of a binary operator.
pub open spec fn binop_word(o: BinaryOperator) -> Seq<char> {
    match o {
        BinaryOperator::Addidion => "plus"@,
        BinaryOperator::Subtraction => "moins"@,
        BinaryOperator::Multiplication => "fois"@,
        BinaryOperator::Division => "divise"@,
        BinaryOperator::And => "et"@,
        BinaryOperator::Or => "ou"@,
        BinaryOperator::Equal => "egal"@,
        BinaryOperator::LessThan => "inf"@,
    }
}

/// The tree text of a scalar declaration.
pub open spec fn scalar_tree(s: Scalar, ind: int) -> Seq<char> {
    spaces(ind) + "<varDec>"@ + s.1@ + "</varDec>\n"@
}

/// The tree text of a vector declaration.
pub open spec fn vector_tree(v: Vector, ind: int) -> Seq<char> {
    spaces(ind) + "<tabDec>"@ + v.2@ + "["@ + dec_of(v.1 as int) + "]"@ + "</tabDec>\n"@
}

/// The decimal text of a non-negative count.
pub open spec fn dec_of(n: int) -> Seq<char> {
    crate::text::dec_digits(n as nat)
}

/// The tree text of a variable declaration.
pub open spec fn variable_tree(v: Variable, ind: int) -> Seq<char> {
    match v {
        Variable::Scalar(s) => scalar_tree(s, ind),
        Variable::Vector(w) => vector_tree(w, ind),
    }
}

/// The tree text of a scalar list, inside its own tag pair.
pub open spec fn scalars_tree(ss: Seq<Scalar>, ind: int) -> Seq<char> {
    spaces(ind) + "<l_dec>\n"@ + scalars_items(ss, 0, deeper(ind)) + spaces(ind) + "</l_dec>\n"@
}

/// The scalar lines from position `i` on.
pub open spec fn scalars_items(ss: Seq<Scalar>, i: int, ind: int) -> Seq<char>
    decreases ss.len() - i,
{
    if i < 0 || i >= ss.len() {
        Seq::empty()
    } else {
        scalar_tree(ss[i], ind) + scalars_items(ss, i + 1, ind)
    }
}

/// The tree text of an expression.
pub open spec fn expr_tree(e: Expression, ind: int) -> Seq<char>
    decreases e, 0int, 0int,
{
    match e {
        Expression::Value(n) => spaces(ind) + "<intExp>"@ + int_digits(n as int) + "</intExp>\n"@,
        Expression::LeftValue(lv) => spaces(ind) + "<varExp>\n"@ + lv_tree(lv, deeper(ind))
            + spaces(ind) + "</varExp>\n"@,
        Expression::CallFunction(c) => spaces(ind) + "<appelExp>\n"@ + call_tree(c, deeper(ind))
            + spaces(ind) + "</appelExp>\n"@,
        Expression::ReadFunction => spaces(ind) + "<lireExp>\n"@ + spaces(ind) + "</lireExp>\n"@,
        Expression::UnaryOperation(_, e1) => spaces(ind) + "<opExp>\n"@ + spaces(deeper(ind))
            + "non\n"@ + expr_tree(*e1, deeper(ind)) + spaces(ind) + "</opExp>\n"@,
        Expression::BinaryOperation(o, e1, e2) => spaces(ind) + "<opExp>\n"@ + spaces(deeper(ind))
            + binop_word(o) + "\n"@ + expr_tree(*e1, deeper(ind)) + expr_tree(*e2, deeper(ind))
            + spaces(ind) + "</opExp>\n"@,
    }
}

/// The tree text of a left-value.
pub open spec fn lv_tree(lv: LeftValue, ind: int) -> Seq<char>
    decreases lv, 0int, 0int,
{
    match lv {
        LeftValue::Variable(id) => spaces(ind) + "<var_simple>"@ + id@ + "</var_simple>\n"@,
        LeftValue::VariableAt(id, e) => spaces(ind) + "<var_indicee>\n"@ + spaces(deeper(ind))
            + "<var_base_tableau>"@ + id@ + "</var_base_tableau>\n"@ + expr_tree(
            *e,
            deeper(ind),
        ) + spaces(ind) + "</var_indicee>\n"@,
    }
}

/// The tree text of a call.
pub open spec fn call_tree(c: CallFunction, ind: int) -> Seq<char>
    decreases c, 1int, 0int,
{
    spaces(ind) + "<appel>\n"@ + spaces(deeper(ind)) + c.0@ + "\n"@ + exprs_tree(
        c.1@,
        deeper(ind),
    ) + spaces(ind) + "</appel>\n"@
}

/// The tree text of an expression list, inside its own tag pair.
pub open spec fn exprs_tree(es: Seq<Expression>, ind: int) -> Seq<char>
    decreases es, 2int, 0int,
{
    spaces(ind) + "<l_exp>\n"@ + exprs_items(es, 0, deeper(ind)) + spaces(ind) + "</l_exp>\n"@
}

/// The expression texts from position `i` on.
pub open spec fn exprs_items(es: Seq<Expression>, i: int, ind: int) -> Seq<char>
    decreases es, 1int, es.len() - i,
{
    if i < 0 || i >= es.len() {
        Seq::empty()
    } else {
        expr_tree(es[i], ind) + exprs_items(es, i + 1, ind)
    }
}

/// The tree text of one instruction; a no-op prints nothing.
pub open spec fn instr_tree(ins: Instruction, ind: int) -> Seq<char>
    decreases ins, 0int, 0int,
{
    match ins {
        Instruction::Affectation(lv, e) => spaces(ind) + "<instr_affect>\n"@ + lv_tree(
            lv,
            deeper(ind),
        ) + expr_tree(e, deeper(ind)) + spaces(ind) + "</instr_affect>\n"@,
        Instruction::CallFunction(c) => spaces(ind) + "<instr_appel>\n"@ + call_tree(
            c,
            deeper(ind),
        ) + spaces(ind) + "</instr_appel>\n"@,
        Instruction::Return(e) => spaces(ind) + "<instr_retour>\n"@ + expr_tree(e, deeper(ind))
            + spaces(ind) + "</instr_retour>\n"@,
        Instruction::If(e, i1, i2) => spaces(ind) + "<instr_si>\n"@ + expr_tree(e, deeper(ind))
            + instrs_tree(i1@, deeper(ind)) + instrs_tree(i2@, deeper(ind)) + spaces(ind)
            + "</instr_si>\n"@,
        Instruction::While(e, i) => spaces(ind) + "<instr_tantque>\n"@ + expr_tree(
            e,
            deeper(ind),
        ) + instrs_tree(i@, deeper(ind)) + spaces(ind) + "</instr_tantque>\n"@,
        Instruction::WriteFunction(e) => spaces(ind) + "<instr_ecrire>\n"@ + expr_tree(
            e,
            deeper(ind),
        ) + spaces(ind) + "</instr_ecrire>\n"@,
        Instruction::NOP => Seq::empty(),
    }
}

/// The tree text of an instruction list: hidden when empty, else inside
/// its own tag pair.
pub open spec fn instrs_tree(ii: Seq<Instruction>, ind: int) -> Seq<char>
    decreases ii, 2int, 0int,
{
    if ii.len() == 0 {
        Seq::empty()
    } else {
        spaces(ind) + "<l_instr>\n"@ + instrs_items(ii, 0, deeper(ind)) + spaces(ind)
            + "</l_instr>\n"@
    }
}

/// The instruction texts from position `i` on.
pub open spec fn instrs_items(ii: Seq<Instruction>, i: int, ind: int) -> Seq<char>
    decreases ii, 1int, ii.len() - i,
{
    if i < 0 || i >= ii.len() {
        Seq::empty()
    } else {
        instr_tree(ii[i], ind) + instrs_items(ii, i + 1, ind)
    }
}

/// The tree text of one top-level statement.
pub open spec fn stmt_tree(s: Statement, ind: int) -> Seq<char> {
    match s {
        Statement::DclVariable(v) => variable_tree(v, ind),
        Statement::DclFunction(id, args, vars, body) => spaces(ind) + "<foncDec>\n"@ + spaces(
            deeper(ind),
        ) + id@ + "\n"@ + scalars_tree(args@, deeper(ind)) + scalars_tree(vars@, deeper(ind))
            + instrs_tree(body@, deeper(ind)) + spaces(ind) + "</foncDec>\n"@,
    }
}

/// The texts of the variable declarations from position `i` on.
pub open spec fn var_stmts_items(ss: Seq<Statement>, i: int, ind: int) -> Seq<char>
    decreases ss.len() - i,
{
    if i < 0 || i >= ss.len() {
        Seq::empty()
    } else {
        (if ss[i] is DclVariable {
            stmt_tree(ss[i], ind)
        } else {
            Seq::empty()
        }) + var_stmts_items(ss, i + 1, ind)
    }
}

/// The texts of the function declarations from position `i` on.
pub open spec fn fun_stmts_items(ss: Seq<Statement>, i: int, ind: int) -> Seq<char>
    decreases ss.len() - i,
{
    if i < 0 || i >= ss.len() {
        Seq::empty()
    } else {
        (if ss[i] is DclFunction {
            stmt_tree(ss[i], ind)
        } else {
            Seq::empty()
        }) + fun_stmts_items(ss, i + 1, ind)
    }
}

/// The whole tree text: the variable declarations in one list, then the
/// functions in another, inside the program tag.
pub open spec fn program_tree(p: Program, ind: int) -> Seq<char> {
    let ni = deeper(ind);
    let nni = deeper(ni);
    spaces(ind) + "<prog>\n"@ + spaces(ni) + "<l_dec>\n"@ + var_stmts_items(p.0@, 0, nni)
        + spaces(ni) + "</l_dec>\n"@ + spaces(ni) + "<l_dec>\n"@ + fun_stmts_items(p.0@, 0, nni)
        + spaces(ni) + "</l_dec>\n"@ + spaces(ind) + "</prog>\n"@
}

/// A run of spaces.
fn spaces_string(n: usize) -> (r: String)
    ensures
        r@ == spaces(n as int),
{
    let mut s = String::new();
    let mut i: usize = 0;
    proof {
        assert(s@ =~= spaces(0));
    }
    while i < n
        invariant
            i <= n,
            s@ == spaces(i as int),
        decreases n - i,
    {
        s.append(" ");
        proof {
            reveal_strlit(" ");
            assert(s@ =~= spaces(i + 1int));
        }
        i = i + 1;
    }
    s
}

/// The indent one level deeper.
fn deeper_ind(ind: usize) -> (r: usize)
    ensures
        r as int == deeper(ind as int),
{
    if ind <= usize::MAX - 2 {
        ind + 2
    } else {
        ind
    }
}

impl Scalar {
    /// Renders the declaration's tree text.
    pub fn to_asynt(&self, ind: usize) -> (r: String)
        ensures
            r@ == scalar_tree(*self, ind as int),
    {
        let mut s = spaces_string(ind);
        s.append("<varDec>");
        s.append(self.1.as_str());
        s.append("</varDec>\n");
        s
    }
}

impl Vector {
    /// Renders the declaration's tree text.
    pub fn to_asynt(&self, ind: usize) -> (r: String)
        ensures
            r@ == vector_tree(*self, ind as int),
    {
        let mut s = spaces_string(ind);
        s.append("<tabDec>");
        s.append(self.2.as_str());
        s.append("[");
        s.append(u64_to_string(self.1 as u64).as_str());
        s.append("]");
        s.append("</tabDec>\n");
        s
    }
}

impl Variable {
    /// Renders the declaration's tree text.
    pub fn to_asynt(&self, ind: usize) -> (r: String)
        ensures
            r@ == variable_tree(*self, ind as int),
    {
        match self {
            Variable::Scalar(s) => s.to_asynt(ind),
            Variable::Vector(v) => v.to_asynt(ind),
        }
    }
}

/// Renders the scalar list inside its tag pair.
pub fn scalars_to_asynt(ss: &Vec<Scalar>, ind: usize) -> (r: String)
    ensures
        r@ == scalars_tree(ss@, ind as int),
{
    let mut out = spaces_string(ind);
    out.append("<l_dec>\n");
    let ni = deeper_ind(ind);
    let ghost head = out@;
    let n = ss.len();
    let mut i: usize = 0;
    while i < n
        invariant
            i <= n,
            n == ss@.len(),
            ni as int == deeper(ind as int),
            out@ + scalars_items(ss@, i as int, ni as int) == head + scalars_items(
                ss@,
                0,
                ni as int,
            ),
        decreases n - i,
    {
        let item = ss[i].to_asynt(ni);
        out.append(item.as_str());
        proof {
            assert(out@ + scalars_items(ss@, i + 1int, ni as int) =~= head + scalars_items(
                ss@,
                0,
                ni as int,
            ));
        }
        i = i + 1;
    }
    out.append(spaces_string(ind).as_str());
    out.append("</l_dec>\n");
    proof {
        assert(scalars_items(ss@, n as int, ni as int) == Seq::<char>::empty());
        assert(out@ =~= scalars_tree(ss@, ind as int));
    }
    out
}

impl Expression {
    /// Renders the expression's tree text.
    pub fn to_asynt(&self, ind: usize) -> (r: String)
        ensures
            r@ == expr_tree(*self, ind as int),
        decreases *self, 0int,
    {
        let ni = deeper_ind(ind);
        match self {
            Expression::Value(n) => {
                let mut s = spaces_string(ind);
                s.append("<intExp>");
                s.append(i64_to_string(*n as i64).as_str());
                s.append("</intExp>\n");
                s
            },
            Expression::LeftValue(lv) => {
                let mut s = spaces_string(ind);
                s.append("<varExp>\n");
                s.append(lv.to_asynt(ni).as_str());
                s.append(spaces_string(ind).as_str());
                s.append("</varExp>\n");
                s
            },
            Expression::CallFunction(c) => {
                let mut s = spaces_string(ind);
                s.append("<appelExp>\n");
                s.append(c.to_asynt(ni).as_str());
                s.append(spaces_string(ind).as_str());
                s.append("</appelExp>\n");
                s
            },
            Expression::ReadFunction => {
                let mut s = spaces_string(ind);
                s.append("<lireExp>\n");
                s.append(spaces_string(ind).as_str());
                s.append("</lireExp>\n");
                s
            },
            Expression::UnaryOperation(_, e1) => {
                let mut s = spaces_string(ind);
                s.append("<opExp>\n");
                s.append(spaces_string(ni).as_str());
                s.append("non\n");
                s.append(e1.to_asynt(ni).as_str());
                s.append(spaces_string(ind).as_str());
                s.append("</opExp>\n");
                s
            },
            Expression::BinaryOperation(o, e1, e2) => {
                let mut s = spaces_string(ind);
                s.append("<opExp>\n");
                s.append(spaces_string(ni).as_str());
                s.append(
                    match o {
                        BinaryOperator::Addidion => "plus",
                        BinaryOperator::Subtraction => "moins",
                        BinaryOperator::Multiplication => "fois",
                        BinaryOperator::Division => "divise",
                        BinaryOperator::And => "et",
                        BinaryOperator::Or => "ou",
                        BinaryOperator::Equal => "egal",
                        BinaryOperator::LessThan => "inf",
                    },
                );
                s.append("\n");
                s.append(e1.to_asynt(ni).as_str());
                s.append(e2.to_asynt(ni).as_str());
                s.append(spaces_string(ind).as_str());
                s.append("</opExp>\n");
                s
            },
        }
    }
}

impl LeftValue {
    /// Renders the left-value's tree text.
    pub fn to_asynt(&self, ind: usize) -> (r: String)
        ensures
            r@ == lv_tree(*self, ind as int),
        decreases *self, 0int,
    {
        let ni = deeper_ind(ind);
        match self {
            LeftValue::Variable(id) => {
                let mut s = spaces_string(ind);
                s.append("<var_simple>");
                s.append(id.as_str());
                s.append("</var_simple>\n");
                s
            },
            LeftValue::VariableAt(id, e) => {
                let mut s = spaces_string(ind);
                s.append("<var_indicee>\n");
                s.append(spaces_string(ni).as_str());
                s.append("<var_base_tableau>");
                s.append(id.as_str());
                s.append("</var_base_tableau>\n");
                s.append(e.to_asynt(ni).as_str());
                s.append(spaces_string(ind).as_str());
                s.append("</var_indicee>\n");
                s
            },
        }
    }
}

impl CallFunction {
    /// Renders the call's tree text.
    pub fn to_asynt(&self, ind: usize) -> (r: String)
        ensures
            r@ == call_tree(*self, ind as int),
        decreases *self, 1int,
    {
        let ni = deeper_ind(ind);
        let mut s = spaces_string(ind);
        s.append("<appel>\n");
        s.append(spaces_string(ni).as_str());
        s.append(self.0.as_str());
        s.append("\n");
        let nni = deeper_ind(ni);
        s.append(spaces_string(ni).as_str());
        s.append("<l_exp>\n");
        let ghost head = s@;
        let n = self.1.len();
        let mut i: usize = 0;
        while i < n
            invariant
                i <= n,
                n == self.1@.len(),
                nni as int == deeper(ni as int),
                s@ + exprs_items(self.1@, i as int, nni as int) == head + exprs_items(
                    self.1@,
                    0,
                    nni as int,
                ),
            decreases n - i,
        {
            let item = self.1[i].to_asynt(nni);
            s.append(item.as_str());
            proof {
                assert(s@ + exprs_items(self.1@, i + 1int, nni as int) =~= head + exprs_items(
                    self.1@,
                    0,
                    nni as int,
                ));
            }
            i = i + 1;
        }
        s.append(spaces_string(ni).as_str());
        s.append("</l_exp>\n");
        s.append(spaces_string(ind).as_str());
        s.append("</appel>\n");
        proof {
            assert(exprs_items(self.1@, n as int, nni as int) == Seq::<char>::empty());
            assert(s@ =~= call_tree(*self, ind as int));
        }
        s
    }
}

impl Instruction {
    /// Renders the instruction's tree text; a no-op prints nothing.
    pub fn to_asynt(&self, ind: usize) -> (r: String)
        ensures
            r@ == instr_tree(*self, ind as int),
        decreases *self, 1int,
    {
        let ni = deeper_ind(ind);
        match self {
            Instruction::Affectation(lv, e) => {
                let mut s = spaces_string(ind);
                s.append("<instr_affect>\n");
                s.append(lv.to_asynt(ni).as_str());
                s.append(e.to_asynt(ni).as_str());
                s.append(spaces_string(ind).as_str());
                s.append("</instr_affect>\n");
                s
            },
            Instruction::CallFunction(c) => {
                let mut s = spaces_string(ind);
                s.append("<instr_appel>\n");
                s.append(c.to_asynt(ni).as_str());
                s.append(spaces_string(ind).as_str());
                s.append("</instr_appel>\n");
                s
            },
            Instruction::Return(e) => {
                let mut s = spaces_string(ind);
                s.append("<instr_retour>\n");
                s.append(e.to_asynt(ni).as_str());
                s.append(spaces_string(ind).as_str());
                s.append("</instr_retour>\n");
                s
            },
            Instruction::If(e, i1, i2) => {
                let mut s = spaces_string(ind);
                s.append("<instr_si>\n");
                s.append(e.to_asynt(ni).as_str());
                s.append(instructions_to_asynt(i1, ni).as_str());
                s.append(instructions_to_asynt(i2, ni).as_str());
                s.append(spaces_string(ind).as_str());
                s.append("</instr_si>\n");
                s
            },
            Instruction::While(e, i) => {
                let mut s = spaces_string(ind);
                s.append("<instr_tantque>\n");
                s.append(e.to_asynt(ni).as_str());
                s.append(instructions_to_asynt(i, ni).as_str());
                s.append(spaces_string(ind).as_str());
                s.append("</instr_tantque>\n");
                s
            },
            Instruction::WriteFunction(e) => {
                let mut s = spaces_string(ind);
                s.append("<instr_ecrire>\n");
                s.append(e.to_asynt(ni).as_str());
                s.append(spaces_string(ind).as_str());
                s.append("</instr_ecrire>\n");
                s
            },
            Instruction::NOP => {
                let s = String::new();
                proof {
                    assert(s@ =~= instr_tree(*self, ind as int));
                }
                s
            },
        }
    }
}

/// Renders the instruction list: nothing when empty, else inside its tag
/// pair.
pub fn instructions_to_asynt(ii: &Vec<Instruction>, ind: usize) -> (r: String)
    ensures
        r@ == instrs_tree(ii@, ind as int),
    decreases ii@, 2int,
{
    if ii.len() == 0 {
        let s = String::new();
        proof {
            assert(s@ =~= instrs_tree(ii@, ind as int));
        }
        return s;
    }
    let ni = deeper_ind(ind);
    let mut out = spaces_string(ind);
    out.append("<l_instr>\n");
    let ghost head = out@;
    let n = ii.len();
    let mut i: usize = 0;
    while i < n
        invariant
            i <= n,
            n == ii@.len(),
            ni as int == deeper(ind as int),
            out@ + instrs_items(ii@, i as int, ni as int) == head + instrs_items(
                ii@,
                0,
                ni as int,
            ),
        decreases n - i,
    {
        let item = ii[i].to_asynt(ni);
        out.append(item.as_str());
        proof {
            assert(out@ + instrs_items(ii@, i + 1int, ni as int) =~= head + instrs_items(
                ii@,
                0,
                ni as int,
            ));
        }
        i = i + 1;
    }
    out.append(spaces_string(ind).as_str());
    out.append("</l_instr>\n");
    proof {
        assert(instrs_items(ii@, n as int, ni as int) == Seq::<char>::empty());
        assert(out@ =~= instrs_tree(ii@, ind as int));
    }
    out
}

impl Statement {
    /// Renders the statement's tree text.
    pub fn to_asynt(&self, ind: usize) -> (r: String)
        ensures
            r@ == stmt_tree(*self, ind as int),
    {
        match self {
            Statement::DclVariable(v) => v.to_asynt(ind),
            Statement::DclFunction(id, args, vars, body) => {
                let ni = deeper_ind(ind);
                let mut s = spaces_string(ind);
                s.append("<foncDec>\n");
                s.append(spaces_string(ni).as_str());
                s.append(id.as_str());
                s.append("\n");
                s.append(scalars_to_asynt(args, ni).as_str());
                s.append(scalars_to_asynt(vars, ni).as_str());
                s.append(instructions_to_asynt(body, ni).as_str());
                s.append(spaces_string(ind).as_str());
                s.append("</foncDec>\n");
                s
            },
        }
    }
}

impl Program {
    /// Renders the whole tree: the variable declarations in one list, then
    /// the functions in another.
    pub fn to_asynt(&self, ind: usize) -> (r: String)
        ensures
            r@ == program_tree(*self, ind as int),
    {
        let ni = deeper_ind(ind);
        let nni = deeper_ind(ni);
        let mut out = spaces_string(ind);
        out.append("<prog>\n");
        out.append(spaces_string(ni).as_str());
        out.append("<l_dec>\n");
        let ghost head1 = out@;
        let n = self.0.len();
        let mut i: usize = 0;
        while i < n
            invariant
                i <= n,
                n == self.0@.len(),
                nni as int == deeper(ni as int),
                out@ + var_stmts_items(self.0@, i as int, nni as int) == head1 + var_stmts_items(
                    self.0@,
                    0,
                    nni as int,
                ),
            decreases n - i,
        {
            let is_var = match &self.0[i] {
                Statement::DclVariable(_) => true,
                Statement::DclFunction(..) => false,
            };
            if is_var {
                let item = self.0[i].to_asynt(nni);
                out.append(item.as_str());
            }
            proof {
                assert(out@ + var_stmts_items(self.0@, i + 1int, nni as int) =~= head1
                    + var_stmts_items(self.0@, 0, nni as int));
            }
            i = i + 1;
        }
        out.append(spaces_string(ni).as_str());
        out.append("</l_dec>\n");
        out.append(spaces_string(ni).as_str());
        out.append("<l_dec>\n");
        let ghost head2 = out@;
        let mut j: usize = 0;
        while j < n
            invariant
                j <= n,
                n == self.0@.len(),
                nni as int == deeper(ni as int),
                out@ + fun_stmts_items(self.0@, j as int, nni as int) == head2 + fun_stmts_items(
                    self.0@,
                    0,
                    nni as int,
                ),
            decreases n - j,
        {
            let is_fun = match &self.0[j] {
                Statement::DclVariable(_) => false,
                Statement::DclFunction(..) => true,
            };
            if is_fun {
                let item = self.0[j].to_asynt(nni);
                out.append(item.as_str());
            }
            proof {
                assert(out@ + fun_stmts_items(self.0@, j + 1int, nni as int) =~= head2
                    + fun_stmts_items(self.0@, 0, nni as int));
            }
            j = j + 1;
        }
        out.append(spaces_string(ni).as_str());
        out.append("</l_dec>\n");
        out.append(spaces_string(ind).as_str());
        out.append("</prog>\n");
        proof {
            assert(var_stmts_items(self.0@, n as int, nni as int) == Seq::<char>::empty());
            assert(fun_stmts_items(self.0@, n as int, nni as int) == Seq::<char>::empty());
            assert(out@ =~= program_tree(*self, ind as int));
        }
        out
    }
}

} // verus!
