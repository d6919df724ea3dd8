//! The abstract syntax tree the parser produces. The middle end reads it and
//! never mutates it. Expressions also render to a short human-readable text,
//! used verbatim in the comments of the generated three-address code.

use vstd::prelude::*;
use vstd::string::StringExecFns;
use crate::text::int_digits;
use crate::text::i64_to_string;

verus! {

pub type Id = String;

pub type Number = i32;

/// The one scalar type of the language.
#[derive(Debug, Copy, Clone)]
pub enum Type {
    Integer,
}

impl Type {
    /// The byte size of a scalar value.
    pub open spec fn spec_size(self) -> nat {
        4
    }

    /// Byte size of one value of this type.
    pub fn size(self) -> (r: usize)
        ensures
            r == self.spec_size(),
    {
        4
    }
}

/// A scalar declaration: its type and its identifier.
#[derive(Debug, Clone)]
pub struct Scalar(pub Type, pub Id);

/// A vector declaration: its element type, its element count, its identifier.
#[derive(Debug, Clone)]
pub struct Vector(pub Type, pub u32, pub Id);

#[derive(Debug, Clone)]
pub enum Variable {
    Scalar(Scalar),
    Vector(Vector),
}

/// A whole source file: the ordered top-level declarations.
#[derive(Debug)]
pub struct Program(pub Vec<Statement>);

#[derive(Debug)]
pub enum Statement {
    DclVariable(Variable),
    /// A function: name, parameters, local variables, body.
    DclFunction(Id, Vec<Scalar>, Vec<Scalar>, Instructions),
}

pub type Instructions = Vec<Instruction>;

#[derive(Debug)]
pub enum Instruction {
    Affectation(LeftValue, Expression),
    CallFunction(CallFunction),
    Return(Expression),
    If(Expression, Instructions, Instructions),
    While(Expression, Instructions),
    WriteFunction(Expression),
    NOP,
}

pub type Expressions = Vec<Expression>;

#[derive(Debug)]
pub enum Expression {
    Value(Number),
    LeftValue(LeftValue),
    CallFunction(CallFunction),
    ReadFunction,
    UnaryOperation(UnaryOperator, Box<Expression>),
    BinaryOperation(BinaryOperator, Box<Expression>, Box<Expression>),
}

#[derive(Debug)]
pub enum LeftValue {
    Variable(Id),
    VariableAt(Id, Box<Expression>),
}

/// A call: the function's identifier and the arguments.
#[derive(Debug)]
pub struct CallFunction(pub Id, pub Expressions);

#[derive(Debug, Copy, Clone)]
pub enum UnaryOperator {
    Not,
}

#[derive(Debug, Copy, Clone)]
pub enum BinaryOperator {
    Addidion,
    Subtraction,
    Multiplication,
    Division,
    And,
    Or,
    Equal,
    LessThan,
}

/// The rendering of a unary operator.
pub open spec fn unop_text(o: UnaryOperator) -> Seq<char> {
    "!"@
}

/// The rendering of a binary operator.
pub open spec fn binop_text(o: BinaryOperator) -> Seq<char> {
    match o {
        BinaryOperator::Addidion => "+"@,
        BinaryOperator::Subtraction => "-"@,
        BinaryOperator::Multiplication => "*"@,
        BinaryOperator::Division => "/"@,
        BinaryOperator::And => "&"@,
        BinaryOperator::Or => "|"@,
        BinaryOperator::Equal => "=="@,
        BinaryOperator::LessThan => "<"@,
    }
}

/// The rendering of an expression, as the generator quotes it in comments.
pub open spec fn expr_text(e: Expression) -> Seq<char>
    decreases e, 0int, 0int,
{
    match e {
        Expression::Value(n) => int_digits(n as int),
        Expression::LeftValue(lv) => lv_text(lv),
        Expression::CallFunction(c) => call_text(c),
        Expression::ReadFunction => "lire()"@,
        Expression::UnaryOperation(o, e1) => unop_text(o) + "("@ + expr_text(*e1) + ")"@,
        Expression::BinaryOperation(o, e1, e2) => "("@ + expr_text(*e1) + " "@ + binop_text(o)
            + " "@ + expr_text(*e2) + ")"@,
    }
}

/// The rendering of a left-value.
pub open spec fn lv_text(lv: LeftValue) -> Seq<char>
    decreases lv, 0int, 0int,
{
    match lv {
        LeftValue::Variable(id) => id@,
        LeftValue::VariableAt(id, e) => id@ + "["@ + expr_text(*e) + "]"@,
    }
}

/// The rendering of a call: the identifier, then the arguments in parentheses,
/// separated by commas.
pub open spec fn call_text(c: CallFunction) -> Seq<char>
    decreases c, 1int, 0int,
{
    c.0@ + "("@ + args_text(c.1@) + ")"@
}

/// The rendering of an argument list.
pub open spec fn args_text(es: Seq<Expression>) -> Seq<char>
    decreases es, 0int, 1int,
{
    if es.len() == 0 {
        Seq::empty()
    } else {
        expr_text(es.first()) + args_tail_text(es.drop_first())
    }
}

/// The rendering of every argument after the first, each behind a comma.
pub open spec fn args_tail_text(es: Seq<Expression>) -> Seq<char>
    decreases es, 0int, 2int,
{
    if es.len() == 0 {
        Seq::empty()
    } else {
        ", "@ + expr_text(es.first()) + args_tail_text(es.drop_first())
    }
}

impl Expression {
    /// Renders the expression for use in a comment.
    pub fn to_text(&self) -> (r: String)
        ensures
            r@ == expr_text(*self),
        decreases *self, 0int, 0int,
    {
        match self {
            Expression::Value(n) => i64_to_string(*n as i64),
            Expression::LeftValue(lv) => lv.to_text(),
            Expression::CallFunction(c) => c.to_text(),
            Expression::ReadFunction => "lire()".to_owned(),
            Expression::UnaryOperation(o, e1) => {
                let mut s = o.to_text().to_owned();
                s.append("(");
                s.append(e1.to_text().as_str());
                s.append(")");
                s
            },
            Expression::BinaryOperation(o, e1, e2) => {
                let mut s = "(".to_owned();
                s.append(e1.to_text().as_str());
                s.append(" ");
                s.append(o.to_text());
                s.append(" ");
                s.append(e2.to_text().as_str());
                s.append(")");
                s
            },
        }
    }
}

impl LeftValue {
    /// Renders the left-value for use in a comment.
    pub fn to_text(&self) -> (r: String)
        ensures
            r@ == lv_text(*self),
        decreases *self, 0int, 0int,
    {
        match self {
            LeftValue::Variable(id) => id.clone(),
            LeftValue::VariableAt(id, e) => {
                let mut s = id.clone();
                s.append("[");
                s.append(e.to_text().as_str());
                s.append("]");
                s
            },
        }
    }
}

impl CallFunction {
    /// Renders the call for use in a comment.
    pub fn to_text(&self) -> (r: String)
        ensures
            r@ == call_text(*self),
        decreases *self, 1int, 0int,
    {
        let mut s = self.0.clone();
        s.append("(");
        let mut i: usize = 0;
        let n = self.1.len();
        while i < n
            invariant
                0 <= i <= n,
                n == self.1@.len(),
                i == 0 ==> s@ == self.0@ + "("@,
                i > 0 ==> s@ == self.0@ + "("@ + expr_text(self.1@.first()) + tail_prefix_text(
                    self.1@,
                    i as int,
                ),
            decreases n - i,
        {
            if i > 0 {
                s.append(", ");
            }
            s.append(self.1[i].to_text().as_str());
            proof {
                let es = self.1@;
                if i == 0 {
                    assert(es.first() == es[0]);
                    assert(s@ =~= self.0@ + "("@ + expr_text(es.first()) + tail_prefix_text(
                        es,
                        1int,
                    ));
                } else {
                    lemma_tail_prefix_snoc(es, i as int);
                    assert(s@ =~= self.0@ + "("@ + expr_text(es.first()) + tail_prefix_text(
                        es,
                        i + 1int,
                    ));
                }
            }
            i = i + 1;
        }
        s.append(")");
        proof {
            if n == 0 {
                assert(args_text(self.1@) == Seq::<char>::empty());
            } else {
                lemma_tail_prefix_full(self.1@);
                assert(args_text(self.1@) == expr_text(self.1@.first()) + args_tail_text(
                    self.1@.drop_first(),
                ));
            }
            assert(s@ =~= call_text(*self));
        }
        s
    }
}

/// The rendering of arguments 1 .. i, each behind a comma.
pub open spec fn tail_prefix_text(es: Seq<Expression>, i: int) -> Seq<char>
    recommends
        1 <= i <= es.len(),
    decreases i,
{
    if i <= 1 {
        Seq::empty()
    } else {
        tail_prefix_text(es, i - 1) + ", "@ + expr_text(es[i - 1])
    }
}

proof fn lemma_tail_prefix_snoc(es: Seq<Expression>, i: int)
    requires
        1 <= i < es.len(),
    ensures
        tail_prefix_text(es, i) + ", "@ + expr_text(es[i]) == tail_prefix_text(es, i + 1),
{
}

/// Walking the tail with the prefix rendering ends at the recursive rendering.
proof fn lemma_tail_prefix_from(es: Seq<Expression>, i: int)
    requires
        1 <= i <= es.len(),
    ensures
        tail_prefix_text(es, es.len() as int) == tail_prefix_text(es, i) + args_tail_text(
            es.skip(i),
        ),
    decreases es.len() - i,
{
    if i == es.len() {
        assert(es.skip(i).len() == 0);
        assert(tail_prefix_text(es, i) + args_tail_text(es.skip(i)) =~= tail_prefix_text(es, i));
    } else {
        lemma_tail_prefix_from(es, i + 1);
        assert(es.skip(i).first() == es[i]);
        assert(es.skip(i).drop_first() =~= es.skip(i + 1));
        assert(args_tail_text(es.skip(i)) == ", "@ + expr_text(es[i]) + args_tail_text(
            es.skip(i + 1),
        ));
        assert(tail_prefix_text(es, i + 1) == tail_prefix_text(es, i) + ", "@ + expr_text(es[i]));
        assert(tail_prefix_text(es, i) + args_tail_text(es.skip(i)) =~= tail_prefix_text(
            es,
            i + 1,
        ) + args_tail_text(es.skip(i + 1)));
    }
}

proof fn lemma_tail_prefix_full(es: Seq<Expression>)
    requires
        es.len() >= 1,
    ensures
        tail_prefix_text(es, es.len() as int) == args_tail_text(es.drop_first()),
{
    lemma_tail_prefix_from(es, 1);
    assert(es.skip(1) =~= es.drop_first());
    assert(tail_prefix_text(es, 1) + args_tail_text(es.skip(1)) =~= args_tail_text(es.skip(1)));
}

impl UnaryOperator {
    /// Renders the operator.
    pub fn to_text(&self) -> (r: &'static str)
        ensures
            r@ == unop_text(*self),
    {
        "!"
    }
}

impl BinaryOperator {
    /// Renders the operator.
    pub fn to_text(&self) -> (r: &'static str)
        ensures
            r@ == binop_text(*self),
    {
        match self {
            BinaryOperator::Addidion => "+",
            BinaryOperator::Subtraction => "-",
            BinaryOperator::Multiplication => "*",
            BinaryOperator::Division => "/",
            BinaryOperator::And => "&",
            BinaryOperator::Or => "|",
            BinaryOperator::Equal => "==",
            BinaryOperator::LessThan => "<",
        }
    }
}

} // verus!
