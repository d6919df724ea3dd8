//! The law that ties the generated operands back to the symbol table:
//! every variable operand the lowering emits copies the identifier,
//! address and scope of a symbol found in a visibility chain of the table.

use vstd::prelude::*;
use crate::ast::CallFunction;
use crate::ast::Expression;
use crate::ast::Instruction as AstInstruction;
use crate::ast::Program;
use crate::ast::Scalar;
use crate::ast::Statement;
use crate::ast::Variable as AstVariable;
use crate::ast::Vector;
use crate::ast::expr_text;
use crate::gen::GenV;
use crate::gen::child_table;
use crate::gen::data_scope;
use crate::gen::emit;
use crate::gen::expr_resolvable;
use crate::gen::flabel;
use crate::gen::fresh_label;
use crate::gen::fresh_temp;
use crate::gen::instr_resolvable;
use crate::gen::iv;
use crate::gen::jump_eq;
use crate::gen::lower_args;
use crate::gen::lower_call;
use crate::gen::lower_expr;
use crate::gen::lower_instr;
use crate::gen::lower_instrs;
use crate::gen::lower_lv;
use crate::gen::lower_program;
use crate::gen::lower_scalar;
use crate::gen::lower_scalars;
use crate::gen::lower_stmt;
use crate::gen::lower_stmts;
use crate::gen::lv_resolvable;
use crate::gen::nop_at;
use crate::gen::prog_gen_ok;
use crate::gen::resolved_var;
use crate::gen::set_t;
use crate::gen::stmt_gen_ok;
use crate::gen::vlabel;
use crate::ast::LeftValue;
use crate::symbol_table::SymbolV;
use crate::symbol_table::TableV;
use crate::symbol_table::first_variable;
use crate::symbol_table::visible;
use crate::three_address_code::CtvV;
use crate::three_address_code::InstrV;
use crate::three_address_code::KindIV;
use crate::three_address_code::TvV;
use crate::three_address_code::VarV;

verus! {

/// The operand copies this symbol: the printed name, the address and the
/// scope.
pub open spec fn var_matches(v: VarV, s: SymbolV) -> bool {
    &&& !s.is_function()
    &&& v.id == vlabel(s.id)
    &&& v.address == s.address
    &&& v.scope == data_scope(s)
}

/// Some visibility chain of the table holds a symbol the operand copies.
pub open spec fn var_ok(v: VarV, st: Seq<TableV>) -> bool {
    exists|tb: int, j: int|
        0 <= tb < st.len() && 0 <= j < visible(st, tb).len() && var_matches(
            v,
            #[trigger] visible(st, tb)[j],
        )
}

pub open spec fn ctv_ok(o: CtvV, st: Seq<TableV>) -> bool {
    match o {
        CtvV::V(v) => var_ok(v, st),
        _ => true,
    }
}

pub open spec fn tv_ok(o: TvV, st: Seq<TableV>) -> bool {
    match o {
        TvV::V(v) => var_ok(v, st),
        _ => true,
    }
}

/// Every variable operand of the instruction is backed by the table.
pub open spec fn kind_ok(k: KindIV, st: Seq<TableV>) -> bool {
    match k {
        KindIV::Arithmetic { left, right, result, .. } => ctv_ok(left, st) && ctv_ok(right, st)
            && tv_ok(result, st),
        KindIV::Affectation { value, result } => ctv_ok(value, st) && tv_ok(result, st),
        KindIV::Allocation { variable, .. } => match variable {
            Some(v) => var_ok(v, st),
            None => true,
        },
        KindIV::ReadFunction { result } => tv_ok(result, st),
        KindIV::WriteFunction { value } => ctv_ok(value, st),
        KindIV::FunctionCall { result, .. } => tv_ok(result, st),
        KindIV::FunctionBegin => true,
        KindIV::FunctionEnd => true,
        KindIV::FunctionPushArg { arg } => ctv_ok(arg, st),
        KindIV::FunctionReturn { value } => ctv_ok(value, st),
        KindIV::Jump { .. } => true,
        KindIV::JumpIf { left, right, .. } => ctv_ok(left, st) && ctv_ok(right, st),
        KindIV::NOP => true,
    }
}

/// Every variable operand of the code is backed by the table.
pub open spec fn code_ok(instrs: Seq<InstrV>, st: Seq<TableV>) -> bool {
    forall|i: int| 0 <= i < instrs.len() ==> kind_ok((#[trigger] instrs[i]).kind, st)
}

/// A successful lookup returns a member of the sequence, a non-function
/// bearing the looked-up name.
pub proof fn lemma_first_variable_mem(syms: Seq<SymbolV>, id: Seq<char>)
    requires
        first_variable(syms, id) is Some,
    ensures
        exists|j: int|
            0 <= j < syms.len() && #[trigger] syms[j] == first_variable(syms, id)->Some_0
                && !syms[j].is_function() && syms[j].id == id,
    decreases syms.len(),
{
    if !syms.first().is_function() && syms.first().id == id {
        assert(syms[0] == first_variable(syms, id)->Some_0);
    } else {
        lemma_first_variable_mem(syms.drop_first(), id);
        let j0 = choose|j: int|
            0 <= j < syms.drop_first().len() && #[trigger] syms.drop_first()[j] == first_variable(
                syms.drop_first(),
                id,
            )->Some_0 && !syms.drop_first()[j].is_function() && syms.drop_first()[j].id == id;
        assert(syms[j0 + 1] == syms.drop_first()[j0]);
    }
}

/// A resolved operand is backed by the table it was resolved against.
pub proof fn lemma_resolved_ok(st: Seq<TableV>, cur: int, id: Seq<char>, ind: Option<
    crate::three_address_code::CtV,
>)
    requires
        0 <= cur < st.len(),
        first_variable(visible(st, cur), id) is Some,
    ensures
        var_ok(resolved_var(st, cur, id, ind), st),
{
    lemma_first_variable_mem(visible(st, cur), id);
    let j = choose|j: int|
        0 <= j < visible(st, cur).len() && #[trigger] visible(st, cur)[j] == first_variable(
            visible(st, cur),
            id,
        )->Some_0 && !visible(st, cur)[j].is_function() && visible(st, cur)[j].id == id;
    assert(var_matches(resolved_var(st, cur, id, ind), visible(st, cur)[j]));
}

/// Appending a backed instruction keeps the code backed.
pub proof fn lemma_emit_ok(g: GenV, i: InstrV, st: Seq<TableV>)
    requires
        code_ok(g.instrs, st),
        kind_ok(i.kind, st),
    ensures
        code_ok(emit(g, i).instrs, st),
{
    let out = emit(g, i).instrs;
    assert forall|m: int| 0 <= m < out.len() implies kind_ok((#[trigger] out[m]).kind, st) by {
        if m < g.instrs.len() {
            assert(out[m] == g.instrs[m]);
        } else {
            assert(out[m] == i);
        }
    }
}

pub proof fn vars_expr(e: Expression, st: Seq<TableV>, cur: int, g: GenV)
    requires
        0 <= cur < st.len(),
        expr_resolvable(e, st, cur),
        code_ok(g.instrs, st),
    ensures
        code_ok(lower_expr(e, st, cur, g).0.instrs, st),
        ctv_ok(lower_expr(e, st, cur, g).1, st),
    decreases e, 2int,
{
    match e {
        Expression::Value(_) => {},
        Expression::LeftValue(lv) => {
            vars_lv(lv, st, cur, g);
        },
        Expression::CallFunction(c) => {
            vars_call(c, st, cur, g);
        },
        Expression::ReadFunction => {
            let (t, g1) = fresh_temp(g);
            lemma_emit_ok(g1, iv(None, KindIV::ReadFunction { result: TvV::T(t) }, None), st);
        },
        Expression::UnaryOperation(_, e1) => {
            let (l_end, ga) = fresh_label(g);
            vars_expr(*e1, st, cur, ga);
            let (g1, v) = lower_expr(*e1, st, cur, ga);
            let (t, g2) = fresh_temp(g1);
            let i3 = set_t(t, 0, Some("début "@ + expr_text(e)));
            lemma_emit_ok(g2, i3, st);
            let g3 = emit(g2, i3);
            let i4 = jump_eq(v, 0, l_end);
            lemma_emit_ok(g3, i4, st);
            let g4 = emit(g3, i4);
            let i5 = set_t(t, 1, None);
            lemma_emit_ok(g4, i5, st);
            let g5 = emit(g4, i5);
            lemma_emit_ok(g5, nop_at(l_end, "fin "@ + expr_text(e)), st);
        },
        Expression::BinaryOperation(op, e1, e2) => {
            match op {
                crate::ast::BinaryOperator::Addidion
                | crate::ast::BinaryOperator::Subtraction
                | crate::ast::BinaryOperator::Multiplication
                | crate::ast::BinaryOperator::Division => {
                    vars_expr(*e1, st, cur, g);
                    let (g1, left) = lower_expr(*e1, st, cur, g);
                    vars_expr(*e2, st, cur, g1);
                    let (g2, right) = lower_expr(*e2, st, cur, g1);
                    let (t, g3) = fresh_temp(g2);
                    lemma_emit_ok(
                        g3,
                        lower_expr(e, st, cur, g).0.instrs.last(),
                        st,
                    );
                    assert(lower_expr(e, st, cur, g).0 == emit(
                        g3,
                        iv(
                            None,
                            KindIV::Arithmetic {
                                operator: match op {
                                    crate::ast::BinaryOperator::Addidion => crate::three_address_code::ArithmeticOperator::Addition,
                                    crate::ast::BinaryOperator::Subtraction => crate::three_address_code::ArithmeticOperator::Subtraction,
                                    crate::ast::BinaryOperator::Multiplication => crate::three_address_code::ArithmeticOperator::Multiplication,
                                    _ => crate::three_address_code::ArithmeticOperator::Division,
                                },
                                left,
                                right,
                                result: TvV::T(t),
                            },
                            Some(expr_text(e)),
                        ),
                    ));
                    lemma_emit_ok(
                        g3,
                        iv(
                            None,
                            KindIV::Arithmetic {
                                operator: match op {
                                    crate::ast::BinaryOperator::Addidion => crate::three_address_code::ArithmeticOperator::Addition,
                                    crate::ast::BinaryOperator::Subtraction => crate::three_address_code::ArithmeticOperator::Subtraction,
                                    crate::ast::BinaryOperator::Multiplication => crate::three_address_code::ArithmeticOperator::Multiplication,
                                    _ => crate::three_address_code::ArithmeticOperator::Division,
                                },
                                left,
                                right,
                                result: TvV::T(t),
                            },
                            Some(expr_text(e)),
                        ),
                        st,
                    );
                },
                crate::ast::BinaryOperator::And => {
                    let (l_end, ga) = fresh_label(g);
                    vars_expr(*e1, st, cur, ga);
                    let (g1, left) = lower_expr(*e1, st, cur, ga);
                    let (t, g2) = fresh_temp(g1);
                    let i3 = set_t(t, 0, Some("début "@ + expr_text(e)));
                    lemma_emit_ok(g2, i3, st);
                    let g3 = emit(g2, i3);
                    let i4 = jump_eq(left, 0, l_end);
                    lemma_emit_ok(g3, i4, st);
                    let g4 = emit(g3, i4);
                    vars_expr(*e2, st, cur, g4);
                    let (g5, left2) = lower_expr(*e2, st, cur, g4);
                    let i6 = jump_eq(left2, 0, l_end);
                    lemma_emit_ok(g5, i6, st);
                    let g6 = emit(g5, i6);
                    let i7 = set_t(t, 1, None);
                    lemma_emit_ok(g6, i7, st);
                    let g7 = emit(g6, i7);
                    lemma_emit_ok(g7, nop_at(l_end, "fin "@ + expr_text(e)), st);
                },
                crate::ast::BinaryOperator::Or => {
                    let (l_end, ga) = fresh_label(g);
                    vars_expr(*e1, st, cur, ga);
                    let (g1, left) = lower_expr(*e1, st, cur, ga);
                    let (t, g2) = fresh_temp(g1);
                    let i3 = set_t(t, 1, Some("début "@ + expr_text(e)));
                    lemma_emit_ok(g2, i3, st);
                    let g3 = emit(g2, i3);
                    let i4 = jump_eq(left, 1, l_end);
                    lemma_emit_ok(g3, i4, st);
                    let g4 = emit(g3, i4);
                    vars_expr(*e2, st, cur, g4);
                    let (g5, left2) = lower_expr(*e2, st, cur, g4);
                    let i6 = jump_eq(left2, 1, l_end);
                    lemma_emit_ok(g5, i6, st);
                    let g6 = emit(g5, i6);
                    let i7 = set_t(t, 0, None);
                    lemma_emit_ok(g6, i7, st);
                    let g7 = emit(g6, i7);
                    lemma_emit_ok(g7, nop_at(l_end, "fin "@ + expr_text(e)), st);
                },
                crate::ast::BinaryOperator::Equal | crate::ast::BinaryOperator::LessThan => {
                    let condition = match op {
                        crate::ast::BinaryOperator::Equal => crate::three_address_code::JumpIfCondition::Equal,
                        _ => crate::three_address_code::JumpIfCondition::Less,
                    };
                    let (l_end, ga) = fresh_label(g);
                    vars_expr(*e1, st, cur, ga);
                    let (g1, left) = lower_expr(*e1, st, cur, ga);
                    vars_expr(*e2, st, cur, g1);
                    let (g2, right) = lower_expr(*e2, st, cur, g1);
                    let (t, g3) = fresh_temp(g2);
                    let i4 = set_t(t, 1, Some("début "@ + expr_text(e)));
                    lemma_emit_ok(g3, i4, st);
                    let g4 = emit(g3, i4);
                    let i5 = iv(
                        None,
                        KindIV::JumpIf { condition, left, right, label: l_end },
                        None,
                    );
                    lemma_emit_ok(g4, i5, st);
                    let g5 = emit(g4, i5);
                    let i6 = set_t(t, 0, None);
                    lemma_emit_ok(g5, i6, st);
                    let g6 = emit(g5, i6);
                    lemma_emit_ok(g6, nop_at(l_end, "fin "@ + expr_text(e)), st);
                },
            }
        },
    }
}

pub proof fn vars_lv(lv: LeftValue, st: Seq<TableV>, cur: int, g: GenV)
    requires
        0 <= cur < st.len(),
        lv_resolvable(lv, st, cur),
        code_ok(g.instrs, st),
    ensures
        code_ok(lower_lv(lv, st, cur, g).0.instrs, st),
        var_ok(lower_lv(lv, st, cur, g).1, st),
    decreases lv, 2int,
{
    match lv {
        LeftValue::Variable(id) => {
            lemma_resolved_ok(st, cur, id@, None);
        },
        LeftValue::VariableAt(id, e) => {
            vars_expr(*e, st, cur, g);
            let (g1, v) = lower_expr(*e, st, cur, g);
            match v {
                CtvV::C(c) => {
                    lemma_resolved_ok(st, cur, id@, Some(crate::three_address_code::CtV::C(c)));
                },
                CtvV::T(t) => {
                    lemma_resolved_ok(st, cur, id@, Some(crate::three_address_code::CtV::T(t)));
                },
                CtvV::V(w) => {
                    let (t, g2) = fresh_temp(g1);
                    lemma_emit_ok(
                        g2,
                        iv(
                            None,
                            KindIV::Affectation { value: CtvV::V(w), result: TvV::T(t) },
                            None,
                        ),
                        st,
                    );
                    lemma_resolved_ok(st, cur, id@, Some(crate::three_address_code::CtV::T(t)));
                },
            }
        },
    }
}

pub proof fn vars_call(c: CallFunction, st: Seq<TableV>, cur: int, g: GenV)
    requires
        0 <= cur < st.len(),
        forall|k: int| 0 <= k < c.1@.len() ==> expr_resolvable(#[trigger] c.1@[k], st, cur),
        code_ok(g.instrs, st),
    ensures
        code_ok(lower_call(c, st, cur, g).0.instrs, st),
        ctv_ok(lower_call(c, st, cur, g).1, st),
    decreases c, 3int,
{
    let i1 = iv(
        None,
        KindIV::Allocation { variable: None, size: 1 },
        Some("début appel "@ + c.0@),
    );
    lemma_emit_ok(g, i1, st);
    let g1 = emit(g, i1);
    vars_args(c.1@, 0, st, cur, g1);
    let g2 = lower_args(c.1@, 0, st, cur, g1);
    let (t, g3) = fresh_temp(g2);
    lemma_emit_ok(
        g3,
        iv(
            None,
            KindIV::FunctionCall { function: flabel(c.0@), result: TvV::T(t) },
            Some("fin appel "@ + c.0@),
        ),
        st,
    );
}

pub proof fn vars_args(es: Seq<Expression>, i: int, st: Seq<TableV>, cur: int, g: GenV)
    requires
        0 <= cur < st.len(),
        forall|k: int| 0 <= k < es.len() ==> expr_resolvable(#[trigger] es[k], st, cur),
        code_ok(g.instrs, st),
    ensures
        code_ok(lower_args(es, i, st, cur, g).instrs, st),
    decreases es, es.len() - i, 4int,
{
    if 0 <= i < es.len() {
        vars_expr(es[i], st, cur, g);
        let (g1, v) = lower_expr(es[i], st, cur, g);
        let i2 = iv(None, KindIV::FunctionPushArg { arg: v }, None);
        lemma_emit_ok(g1, i2, st);
        vars_args(es, i + 1, st, cur, emit(g1, i2));
    }
}

pub proof fn vars_instr(ins: AstInstruction, st: Seq<TableV>, cur: int, g: GenV)
    requires
        0 <= cur < st.len(),
        instr_resolvable(ins, st, cur),
        code_ok(g.instrs, st),
    ensures
        code_ok(lower_instr(ins, st, cur, g).instrs, st),
    decreases ins, 2int,
{
    match ins {
        AstInstruction::Affectation(lv, e) => {
            vars_lv(lv, st, cur, g);
            let (g1, lhs) = lower_lv(lv, st, cur, g);
            vars_expr(e, st, cur, g1);
            let (g2, value) = lower_expr(e, st, cur, g1);
            lemma_emit_ok(
                g2,
                iv(None, KindIV::Affectation { value, result: TvV::V(lhs) }, None),
                st,
            );
        },
        AstInstruction::CallFunction(c) => {
            vars_call(c, st, cur, g);
        },
        AstInstruction::Return(e) => {
            vars_expr(e, st, cur, g);
            let (g1, value) = lower_expr(e, st, cur, g);
            let i2 = iv(
                None,
                KindIV::FunctionReturn { value },
                Some("retourne "@ + expr_text(e)),
            );
            lemma_emit_ok(g1, i2, st);
            lemma_emit_ok(emit(g1, i2), iv(None, KindIV::FunctionEnd, None), st);
        },
        AstInstruction::If(e, i1, i2) => {
            let (l_else, ga) = fresh_label(g);
            let (l_end, gb) = fresh_label(ga);
            vars_expr(e, st, cur, gb);
            let (g1, v) = lower_expr(e, st, cur, gb);
            let j2 = iv(
                None,
                KindIV::JumpIf {
                    condition: crate::three_address_code::JumpIfCondition::Equal,
                    left: v,
                    right: CtvV::C(0),
                    label: l_else,
                },
                Some("si "@ + expr_text(e)),
            );
            lemma_emit_ok(g1, j2, st);
            let g2 = emit(g1, j2);
            vars_instrs(i1@, 0, st, cur, g2);
            let g3 = lower_instrs(i1@, 0, st, cur, g2);
            let j4 = iv(None, KindIV::Jump { label: l_end }, None);
            lemma_emit_ok(g3, j4, st);
            let g4 = emit(g3, j4);
            lemma_emit_ok(g4, nop_at(l_else, "sinon"@), st);
            let g5 = emit(g4, nop_at(l_else, "sinon"@));
            vars_instrs(i2@, 0, st, cur, g5);
            let g6 = lower_instrs(i2@, 0, st, cur, g5);
            lemma_emit_ok(g6, nop_at(l_end, "fin si"@), st);
        },
        AstInstruction::While(e, i) => {
            let (l_begin, ga) = fresh_label(g);
            let (l_end, gb) = fresh_label(ga);
            let n1 = nop_at(l_begin, "tantque "@ + expr_text(e));
            lemma_emit_ok(gb, n1, st);
            let g1 = emit(gb, n1);
            vars_expr(e, st, cur, g1);
            let (g2, v) = lower_expr(e, st, cur, g1);
            let j3 = iv(
                None,
                KindIV::JumpIf {
                    condition: crate::three_address_code::JumpIfCondition::Equal,
                    left: v,
                    right: CtvV::C(0),
                    label: l_end,
                },
                Some("sort tantque"@),
            );
            lemma_emit_ok(g2, j3, st);
            let g3 = emit(g2, j3);
            vars_instrs(i@, 0, st, cur, g3);
            let g4 = lower_instrs(i@, 0, st, cur, g3);
            let j5 = iv(None, KindIV::Jump { label: l_begin }, None);
            lemma_emit_ok(g4, j5, st);
            lemma_emit_ok(emit(g4, j5), nop_at(l_end, "fin tantque"@), st);
        },
        AstInstruction::WriteFunction(e) => {
            vars_expr(e, st, cur, g);
            let (g1, value) = lower_expr(e, st, cur, g);
            lemma_emit_ok(g1, iv(None, KindIV::WriteFunction { value }, None), st);
        },
        AstInstruction::NOP => {
            lemma_emit_ok(g, iv(None, KindIV::NOP, None), st);
        },
    }
}

pub proof fn vars_instrs(ii: Seq<AstInstruction>, i: int, st: Seq<TableV>, cur: int, g: GenV)
    requires
        0 <= cur < st.len(),
        forall|k: int| 0 <= k < ii.len() ==> instr_resolvable(#[trigger] ii[k], st, cur),
        code_ok(g.instrs, st),
    ensures
        code_ok(lower_instrs(ii, i, st, cur, g).instrs, st),
    decreases ii, ii.len() - i, 3int,
{
    if 0 <= i < ii.len() {
        vars_instr(ii[i], st, cur, g);
        vars_instrs(ii, i + 1, st, cur, lower_instr(ii[i], st, cur, g));
    }
}

pub proof fn vars_scalars(ss: Seq<Scalar>, i: int, st: Seq<TableV>, cur: int, g: GenV)
    requires
        0 <= cur < st.len(),
        forall|k: int|
            0 <= k < ss.len() ==> first_variable(visible(st, cur), (#[trigger] ss[k]).1@)
                is Some,
        code_ok(g.instrs, st),
    ensures
        code_ok(lower_scalars(ss, i, st, cur, g).instrs, st),
    decreases ss.len() - i,
{
    if 0 <= i < ss.len() {
        lemma_resolved_ok(st, cur, ss[i].1@, None);
        lemma_emit_ok(
            g,
            iv(
                None,
                KindIV::Allocation {
                    variable: Some(resolved_var(st, cur, ss[i].1@, None)),
                    size: 4,
                },
                None,
            ),
            st,
        );
        vars_scalars(ss, i + 1, st, cur, lower_scalar(ss[i], st, cur, g));
    }
}

pub proof fn vars_stmt(s: Statement, st: Seq<TableV>, cur: int, g: GenV)
    requires
        0 <= cur < st.len(),
        stmt_gen_ok(s, st, cur),
        code_ok(g.instrs, st),
    ensures
        code_ok(lower_stmt(s, st, cur, g).instrs, st),
{
    match s {
        Statement::DclVariable(AstVariable::Scalar(sc)) => {
            lemma_resolved_ok(st, cur, sc.1@, None);
            lemma_emit_ok(
                g,
                iv(
                    None,
                    KindIV::Allocation {
                        variable: Some(resolved_var(st, cur, sc.1@, None)),
                        size: 4,
                    },
                    None,
                ),
                st,
            );
        },
        Statement::DclVariable(AstVariable::Vector(v)) => {
            lemma_resolved_ok(st, cur, v.2@, None);
            lemma_emit_ok(
                g,
                iv(
                    None,
                    KindIV::Allocation {
                        variable: Some(resolved_var(st, cur, v.2@, None)),
                        size: 4 * (v.1 as int),
                    },
                    None,
                ),
                st,
            );
        },
        Statement::DclFunction(id, args, vars, body) => {
            let child = child_table(st, cur, id@);
            let i1 = iv(
                Some(flabel(id@)),
                KindIV::FunctionBegin,
                Some("début fonction "@ + id@),
            );
            lemma_emit_ok(g, i1, st);
            let g1 = emit(g, i1);
            vars_scalars(vars@, 0, st, child, g1);
            let g2 = lower_scalars(vars@, 0, st, child, g1);
            vars_instrs(body@, 0, st, child, g2);
            let g3 = lower_instrs(body@, 0, st, child, g2);
            lemma_emit_ok(g3, iv(None, KindIV::FunctionEnd, Some("fin fonction "@ + id@)), st);
        },
    }
}

pub proof fn vars_stmts(ss: Seq<Statement>, i: int, st: Seq<TableV>, cur: int, g: GenV)
    requires
        0 <= cur < st.len(),
        forall|k: int| 0 <= k < ss.len() ==> stmt_gen_ok(#[trigger] ss[k], st, cur),
        code_ok(g.instrs, st),
    ensures
        code_ok(lower_stmts(ss, i, st, cur, g).instrs, st),
    decreases ss.len() - i,
{
    if 0 <= i < ss.len() {
        vars_stmt(ss[i], st, cur, g);
        vars_stmts(ss, i + 1, st, cur, lower_stmt(ss[i], st, cur, g));
    }
}

/// Law: every variable operand in the generated code carries the name,
/// address and scope of a symbol found in a visibility chain of the
/// populated table — the chain of the table that was current when the
/// operand was resolved.
pub proof fn lemma_operands_backed(p: Program, st: Seq<TableV>, cur: int)
    requires
        0 <= cur < st.len(),
        prog_gen_ok(p, st, cur),
    ensures
        code_ok(lower_program(p, st, cur).instrs, st),
{
    let g0 = crate::gen::init_gen();
    assert(code_ok(g0.instrs, st));
    vars_stmts(p.0@, 0, st, cur, g0);
}


/// Law: the conjunction lowers to its short-circuit form. Going into the
/// second operand, the last emitted instruction is the guard that jumps to
/// the closing label when the first operand is falsy; and everything the
/// lowering adds after the second operand's code is the second guard, the
/// success store, and the closing no-op itself — so the guard's target
/// stands past every instruction emitted for the second operand, and at
/// run time a falsy first operand skips them all.
pub proof fn lemma_short_circuit_and(
    e: Expression,
    e1: Expression,
    e2: Expression,
    st: Seq<TableV>,
    cur: int,
    g: GenV,
)
    requires
        e == Expression::BinaryOperation(
            crate::ast::BinaryOperator::And,
            Box::new(e1),
            Box::new(e2),
        ),
    ensures
        ({
            let (l_end, ga) = fresh_label(g);
            let (g1, left) = lower_expr(e1, st, cur, ga);
            let (t, g2) = fresh_temp(g1);
            let g3 = emit(g2, set_t(t, 0, Some("début "@ + expr_text(e))));
            let g4 = emit(g3, jump_eq(left, 0, l_end));
            let (g5, left2) = lower_expr(e2, st, cur, g4);
            let g8 = lower_expr(e, st, cur, g).0;
            &&& g4.instrs.last() == jump_eq(left, 0, l_end)
            &&& g8.instrs =~= g5.instrs + seq![
                jump_eq(left2, 0, l_end),
                set_t(t, 1, None),
                nop_at(l_end, "fin "@ + expr_text(e)),
            ]
            &&& lower_expr(e, st, cur, g).1 == CtvV::T(t)
        }),
{
    let (l_end, ga) = fresh_label(g);
    let (g1, left) = lower_expr(e1, st, cur, ga);
    let (t, g2) = fresh_temp(g1);
    let g3 = emit(g2, set_t(t, 0, Some("début "@ + expr_text(e))));
    let g4 = emit(g3, jump_eq(left, 0, l_end));
    let (g5, left2) = lower_expr(e2, st, cur, g4);
    let g6 = emit(g5, jump_eq(left2, 0, l_end));
    let g7 = emit(g6, set_t(t, 1, None));
    let g8 = emit(g7, nop_at(l_end, "fin "@ + expr_text(e)));
    assert(lower_expr(e, st, cur, g).0 == g8);
    assert(g8.instrs =~= g5.instrs + seq![
        jump_eq(left2, 0, l_end),
        set_t(t, 1, None),
        nop_at(l_end, "fin "@ + expr_text(e)),
    ]);
}

} // verus!
