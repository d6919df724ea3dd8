//! The three-address-code generator: lowers the tree, with the populated
//! symbol table, into a linear instruction sequence. The whole lowering is
//! mirrored by spec functions over the mathematical code state, and every
//! step is proved equal to it.
//!
//! Temps are numbered in emission order; appending an instruction records it
//! as the last use of every temp the instruction reads. Fresh labels are
//! named `e{k}` from a monotonic counter; function labels are `f{id}`, and
//! variable operands print as `v{id}`.

use vstd::prelude::*;
use crate::ast::CallFunction;
use crate::ast::Expression;
use crate::ast::Instruction as AstInstruction;
use crate::ast::LeftValue;
use crate::ast::Program;
use crate::ast::Scalar;
use crate::ast::Statement;
use crate::ast::Variable as AstVariable;
use crate::ast::Vector;
use crate::ast::expr_text;
use crate::symbol_table::Scope;
use crate::symbol_table::SymbolV;
use crate::symbol_table::KindV;
use crate::symbol_table::TableV;
use crate::symbol_table::first_function;
use crate::symbol_table::first_variable;
use crate::symbol_table::st_wf;
use crate::symbol_table::visible;
use crate::text::dec_digits;
use crate::three_address_code::CtV;
use crate::three_address_code::CtvV;
use crate::three_address_code::InstrV;
use crate::three_address_code::KindIV;
use crate::three_address_code::TvV;
use crate::three_address_code::VarV;
use crate::three_address_code::ArithmeticOperator;
use crate::three_address_code::JumpIfCondition;
use crate::three_address_code::CT;
use crate::three_address_code::CTV;
use crate::three_address_code::Constant;
use crate::three_address_code::Instruction as TacInstruction;
use crate::three_address_code::InstructionKind;
use crate::three_address_code::Label;
use crate::three_address_code::TV;
use crate::three_address_code::Temp;
use crate::three_address_code::ThreeAddressCode;
use crate::three_address_code::Variable as TacVariable;
use crate::three_address_code::instrs_view;
use crate::symbol_table::Symbol;
use crate::symbol_table::SymbolTable;
use crate::symbol_table::find_function;
use crate::symbol_table::find_variable;
use crate::text::u64_to_string;
use vstd::pervasive::unreached;
use vstd::string::StringExecFns;

verus! {

/// The mathematical form of the generator state: the two counters, the
/// instructions so far, and the last-use table.
pub ghost struct GenV {
    pub labels: int,
    pub temps: int,
    pub instrs: Seq<InstrV>,
    pub last_uses: Seq<int>,
}

/// The name of the `k`-th fresh label.
pub open spec fn elabel(k: int) -> Seq<char> {
    "e"@ + dec_digits(k as nat)
}

/// The label of the function named `id`.
pub open spec fn flabel(id: Seq<char>) -> Seq<char> {
    "f"@ + id
}

/// The printed name of the variable `id`.
pub open spec fn vlabel(id: Seq<char>) -> Seq<char> {
    "v"@ + id
}

/// Whether a constant-or-temp operand reads temp `t`.
pub open spec fn ct_reads(o: CtV, t: int) -> bool {
    o == CtV::T(t)
}

/// Whether a variable operand reads temp `t` (through its index).
pub open spec fn var_reads(v: VarV, t: int) -> bool {
    v.indice == Some(CtV::T(t))
}

/// Whether a source operand reads temp `t`.
pub open spec fn ctv_reads(o: CtvV, t: int) -> bool {
    match o {
        CtvV::C(_) => false,
        CtvV::T(x) => x == t,
        CtvV::V(v) => var_reads(v, t),
    }
}

/// Whether a destination operand reads temp `t`: only through a variable's
/// index; writing a temp is not a read.
pub open spec fn tv_dest_reads(o: TvV, t: int) -> bool {
    match o {
        TvV::T(_) => false,
        TvV::V(v) => var_reads(v, t),
    }
}

/// Whether an instruction reads temp `t`.
pub open spec fn kind_reads(k: KindIV, t: int) -> bool {
    match k {
        KindIV::Arithmetic { left, right, result, .. } => ctv_reads(left, t) || ctv_reads(
            right,
            t,
        ) || tv_dest_reads(result, t),
        KindIV::Affectation { value, result } => ctv_reads(value, t) || tv_dest_reads(result, t),
        KindIV::Allocation { .. } => false,
        KindIV::ReadFunction { result } => tv_dest_reads(result, t),
        KindIV::WriteFunction { value } => ctv_reads(value, t),
        KindIV::FunctionCall { result, .. } => tv_dest_reads(result, t),
        KindIV::FunctionBegin => false,
        KindIV::FunctionEnd => false,
        KindIV::FunctionPushArg { arg } => ctv_reads(arg, t),
        KindIV::FunctionReturn { value } => ctv_reads(value, t),
        KindIV::Jump { .. } => false,
        KindIV::JumpIf { left, right, .. } => ctv_reads(left, t) || ctv_reads(right, t),
        KindIV::NOP => false,
    }
}

/// Whether every temp of a variable operand is below `n`.
pub open spec fn var_temps_lt(v: VarV, n: int) -> bool {
    match v.indice {
        Some(CtV::T(x)) => 0 <= x < n,
        _ => true,
    }
}

/// Whether every temp of a source operand is below `n`.
pub open spec fn ctv_temps_lt(o: CtvV, n: int) -> bool {
    match o {
        CtvV::C(_) => true,
        CtvV::T(x) => 0 <= x < n,
        CtvV::V(v) => var_temps_lt(v, n),
    }
}

/// Whether every temp of a destination operand is below `n`.
pub open spec fn tv_temps_lt(o: TvV, n: int) -> bool {
    match o {
        TvV::T(x) => 0 <= x < n,
        TvV::V(v) => var_temps_lt(v, n),
    }
}

/// Whether every temp an instruction mentions is below `n`.
pub open spec fn kind_temps_lt(k: KindIV, n: int) -> bool {
    match k {
        KindIV::Arithmetic { left, right, result, .. } => ctv_temps_lt(left, n) && ctv_temps_lt(
            right,
            n,
        ) && tv_temps_lt(result, n),
        KindIV::Affectation { value, result } => ctv_temps_lt(value, n) && tv_temps_lt(result, n),
        KindIV::Allocation { variable, .. } => match variable {
            Some(v) => var_temps_lt(v, n),
            None => true,
        },
        KindIV::ReadFunction { result } => tv_temps_lt(result, n),
        KindIV::WriteFunction { value } => ctv_temps_lt(value, n),
        KindIV::FunctionCall { result, .. } => tv_temps_lt(result, n),
        KindIV::FunctionBegin => true,
        KindIV::FunctionEnd => true,
        KindIV::FunctionPushArg { arg } => ctv_temps_lt(arg, n),
        KindIV::FunctionReturn { value } => ctv_temps_lt(value, n),
        KindIV::Jump { .. } => true,
        KindIV::JumpIf { left, right, .. } => ctv_temps_lt(left, n) && ctv_temps_lt(right, n),
        KindIV::NOP => true,
    }
}

/// Whether instruction `i` of `instrs` reads temp `t`.
pub open spec fn reads_at(instrs: Seq<InstrV>, i: int, t: int) -> bool {
    0 <= i < instrs.len() && kind_reads(instrs[i].kind, t)
}

/// The recorded last uses are correct: for every temp, either no
/// instruction reads it and the record is -1, or the record is the largest
/// index of an instruction reading it.
pub open spec fn lu_ok(g: GenV) -> bool {
    forall|t: int|
        0 <= t < g.temps ==> ((g.last_uses[t] == -1 && forall|i: int|
            !#[trigger] reads_at(g.instrs, i, t)) || (#[trigger] reads_at(
            g.instrs,
            g.last_uses[t],
            t,
        ) && forall|i: int| #[trigger] reads_at(g.instrs, i, t) ==> i <= g.last_uses[t]))
}

/// The generator state invariant: one last-use slot per temp, every temp
/// mentioned in the code already allocated, and the last-use records
/// correct.
pub open spec fn ginv(g: GenV) -> bool {
    &&& g.last_uses.len() == g.temps
    &&& 0 <= g.temps
    &&& 0 <= g.labels
    &&& forall|i: int|
        0 <= i < g.instrs.len() ==> kind_temps_lt((#[trigger] g.instrs[i]).kind, g.temps)
    &&& lu_ok(g)
}

/// An instruction value.
pub open spec fn iv(label: Option<Seq<char>>, kind: KindIV, comment: Option<Seq<char>>) -> InstrV {
    InstrV { label, kind, comment }
}

/// Appends an instruction: every temp it reads has its last use set to the
/// new instruction's index.
pub open spec fn emit(g: GenV, i: InstrV) -> GenV {
    GenV {
        instrs: g.instrs.push(i),
        last_uses: Seq::new(
            g.last_uses.len(),
            |t: int|
                if kind_reads(i.kind, t) {
                    g.instrs.len() as int
                } else {
                    g.last_uses[t]
                },
        ),
        ..g
    }
}


/// An assignment of a constant into a temp.
pub open spec fn set_t(t: int, v: int, c: Option<Seq<char>>) -> InstrV {
    iv(None, KindIV::Affectation { value: CtvV::C(v), result: TvV::T(t) }, c)
}

/// A conditional jump comparing an operand against a constant.
pub open spec fn jump_eq(left: CtvV, v: int, l: Seq<char>) -> InstrV {
    iv(
        None,
        KindIV::JumpIf {
            condition: JumpIfCondition::Equal,
            left,
            right: CtvV::C(v),
            label: l,
        },
        None,
    )
}

/// A labelled no-op with a comment.
pub open spec fn nop_at(l: Seq<char>, c: Seq<char>) -> InstrV {
    iv(Some(l), KindIV::NOP, Some(c))
}

/// Allocates the next fresh label name.
pub open spec fn fresh_label(g: GenV) -> (Seq<char>, GenV) {
    (elabel(g.labels), GenV { labels: g.labels + 1, ..g })
}

/// Allocates the next temp, with no recorded use yet.
pub open spec fn fresh_temp(g: GenV) -> (int, GenV) {
    (g.temps, GenV { temps: g.temps + 1, last_uses: g.last_uses.push(-1), ..g })
}

/// The state every generation starts from.
pub open spec fn init_gen() -> GenV {
    GenV { labels: 0, temps: 0, instrs: Seq::empty(), last_uses: Seq::empty() }
}

/// The scope of a resolved data symbol.
pub open spec fn data_scope(sym: SymbolV) -> Scope {
    match sym.kind {
        KindV::Scalar { scope } => scope,
        KindV::Vector { scope, .. } => scope,
        KindV::Function { .. } => Scope::Global,
    }
}

/// The variable operand for `id` resolved in the visibility chain of table
/// `cur`: the nearest data symbol's address and scope, under the printed
/// name `v{id}`.
pub open spec fn resolved_var(st: Seq<TableV>, cur: int, id: Seq<char>, ind: Option<CtV>) -> VarV {
    match first_variable(visible(st, cur), id) {
        Some(sym) => VarV {
            id: vlabel(id),
            indice: ind,
            address: sym.address,
            scope: data_scope(sym),
        },
        None => VarV { id: vlabel(id), indice: ind, address: 0, scope: Scope::Global },
    }
}

/// The child table of the function named `id`, as recorded in its symbol.
pub open spec fn child_table(st: Seq<TableV>, cur: int, id: Seq<char>) -> int {
    match first_function(visible(st, cur), id) {
        Some(sym) => match sym.kind {
            KindV::Function { symbol_table, .. } => symbol_table,
            _ => 0,
        },
        None => 0,
    }
}

/// The lowering of one expression: the new state and the operand holding
/// the value.
pub open spec fn lower_expr(e: Expression, st: Seq<TableV>, cur: int, g: GenV) -> (GenV, CtvV)
    decreases e, 0int,
{
    match e {
        Expression::Value(n) => (g, CtvV::C(n as int)),
        Expression::LeftValue(lv) => {
            let (g1, v) = lower_lv(lv, st, cur, g);
            (g1, CtvV::V(v))
        },
        Expression::CallFunction(c) => lower_call(c, st, cur, g),
        Expression::ReadFunction => {
            let (t, g1) = fresh_temp(g);
            (emit(g1, iv(None, KindIV::ReadFunction { result: TvV::T(t) }, None)), CtvV::T(t))
        },
        Expression::UnaryOperation(_, e1) => {
            let (l_end, ga) = fresh_label(g);
            let (g1, v) = lower_expr(*e1, st, cur, ga);
            let (t, g2) = fresh_temp(g1);
            let g3 = emit(g2, set_t(t, 0, Some("début "@ + expr_text(e))));
            let g4 = emit(g3, jump_eq(v, 0, l_end));
            let g5 = emit(g4, set_t(t, 1, None));
            let g6 = emit(g5, nop_at(l_end, "fin "@ + expr_text(e)));
            (g6, CtvV::T(t))
        },
        Expression::BinaryOperation(op, e1, e2) => {
            match op {
                crate::ast::BinaryOperator::Addidion
                | crate::ast::BinaryOperator::Subtraction
                | crate::ast::BinaryOperator::Multiplication
                | crate::ast::BinaryOperator::Division => {
                    let operator = match op {
                        crate::ast::BinaryOperator::Addidion => ArithmeticOperator::Addition,
                        crate::ast::BinaryOperator::Subtraction => ArithmeticOperator::Subtraction,
                        crate::ast::BinaryOperator::Multiplication => ArithmeticOperator::Multiplication,
                        _ => ArithmeticOperator::Division,
                    };
                    let (g1, left) = lower_expr(*e1, st, cur, g);
                    let (g2, right) = lower_expr(*e2, st, cur, g1);
                    let (t, g3) = fresh_temp(g2);
                    let g4 = emit(
                        g3,
                        iv(
                            None,
                            KindIV::Arithmetic { operator, left, right, result: TvV::T(t) },
                            Some(expr_text(e)),
                        ),
                    );
                    (g4, CtvV::T(t))
                },
                crate::ast::BinaryOperator::And => {
                    let (l_end, ga) = fresh_label(g);
                    let (g1, left) = lower_expr(*e1, st, cur, ga);
                    let (t, g2) = fresh_temp(g1);
                    let g3 = emit(g2, set_t(t, 0, Some("début "@ + expr_text(e))));
                    let g4 = emit(g3, jump_eq(left, 0, l_end));
                    let (g5, left2) = lower_expr(*e2, st, cur, g4);
                    let g6 = emit(g5, jump_eq(left2, 0, l_end));
                    let g7 = emit(g6, set_t(t, 1, None));
                    let g8 = emit(g7, nop_at(l_end, "fin "@ + expr_text(e)));
                    (g8, CtvV::T(t))
                },
                crate::ast::BinaryOperator::Or => {
                    let (l_end, ga) = fresh_label(g);
                    let (g1, left) = lower_expr(*e1, st, cur, ga);
                    let (t, g2) = fresh_temp(g1);
                    let g3 = emit(g2, set_t(t, 1, Some("début "@ + expr_text(e))));
                    let g4 = emit(g3, jump_eq(left, 1, l_end));
                    let (g5, left2) = lower_expr(*e2, st, cur, g4);
                    let g6 = emit(g5, jump_eq(left2, 1, l_end));
                    let g7 = emit(g6, set_t(t, 0, None));
                    let g8 = emit(g7, nop_at(l_end, "fin "@ + expr_text(e)));
                    (g8, CtvV::T(t))
                },
                crate::ast::BinaryOperator::Equal | crate::ast::BinaryOperator::LessThan => {
                    let condition = match op {
                        crate::ast::BinaryOperator::Equal => JumpIfCondition::Equal,
                        _ => JumpIfCondition::Less,
                    };
                    let (l_end, ga) = fresh_label(g);
                    let (g1, left) = lower_expr(*e1, st, cur, ga);
                    let (g2, right) = lower_expr(*e2, st, cur, g1);
                    let (t, g3) = fresh_temp(g2);
                    let g4 = emit(g3, set_t(t, 1, Some("début "@ + expr_text(e))));
                    let g5 = emit(
                        g4,
                        iv(None, KindIV::JumpIf { condition, left, right, label: l_end }, None),
                    );
                    let g6 = emit(g5, set_t(t, 0, None));
                    let g7 = emit(g6, nop_at(l_end, "fin "@ + expr_text(e)));
                    (g7, CtvV::T(t))
                },
            }
        },
    }
}

/// The lowering of a left-value into a variable operand. A variable index
/// is first copied into a fresh temp, so an index is always a constant or a
/// temp.
pub open spec fn lower_lv(lv: LeftValue, st: Seq<TableV>, cur: int, g: GenV) -> (GenV, VarV)
    decreases lv, 0int,
{
    match lv {
        LeftValue::Variable(id) => (g, resolved_var(st, cur, id@, None)),
        LeftValue::VariableAt(id, e) => {
            let (g1, v) = lower_expr(*e, st, cur, g);
            match v {
                CtvV::C(c) => (g1, resolved_var(st, cur, id@, Some(CtV::C(c)))),
                CtvV::T(t) => (g1, resolved_var(st, cur, id@, Some(CtV::T(t)))),
                CtvV::V(w) => {
                    let (t, g2) = fresh_temp(g1);
                    let g3 = emit(
                        g2,
                        iv(
                            None,
                            KindIV::Affectation { value: CtvV::V(w), result: TvV::T(t) },
                            None,
                        ),
                    );
                    (g3, resolved_var(st, cur, id@, Some(CtV::T(t))))
                },
            }
        },
    }
}

/// The lowering of a call: reserve the return slot, push the arguments in
/// order, then call into a fresh temp.
pub open spec fn lower_call(c: CallFunction, st: Seq<TableV>, cur: int, g: GenV) -> (GenV, CtvV)
    decreases c, 1int,
{
    let g1 = emit(
        g,
        iv(
            None,
            KindIV::Allocation { variable: None, size: 1 },
            Some("début appel "@ + c.0@),
        ),
    );
    let g2 = lower_args(c.1@, 0, st, cur, g1);
    let (t, g3) = fresh_temp(g2);
    let g4 = emit(
        g3,
        iv(
            None,
            KindIV::FunctionCall { function: flabel(c.0@), result: TvV::T(t) },
            Some("fin appel "@ + c.0@),
        ),
    );
    (g4, CtvV::T(t))
}

/// The lowering of the arguments from position `i` on: each is lowered and
/// pushed.
pub open spec fn lower_args(es: Seq<Expression>, i: int, st: Seq<TableV>, cur: int, g: GenV) -> GenV
    decreases es, es.len() - i,
{
    if i < 0 || i >= es.len() {
        g
    } else {
        let (g1, v) = lower_expr(es[i], st, cur, g);
        let g2 = emit(g1, iv(None, KindIV::FunctionPushArg { arg: v }, None));
        lower_args(es, i + 1, st, cur, g2)
    }
}

/// The lowering of one instruction.
pub open spec fn lower_instr(ins: AstInstruction, st: Seq<TableV>, cur: int, g: GenV) -> GenV
    decreases ins, 0int,
{
    match ins {
        AstInstruction::Affectation(lv, e) => {
            let (g1, lhs) = lower_lv(lv, st, cur, g);
            let (g2, value) = lower_expr(e, st, cur, g1);
            emit(g2, iv(None, KindIV::Affectation { value, result: TvV::V(lhs) }, None))
        },
        AstInstruction::CallFunction(c) => lower_call(c, st, cur, g).0,
        AstInstruction::Return(e) => {
            let (g1, value) = lower_expr(e, st, cur, g);
            let g2 = emit(
                g1,
                iv(
                    None,
                    KindIV::FunctionReturn { value },
                    Some("retourne "@ + expr_text(e)),
                ),
            );
            emit(g2, iv(None, KindIV::FunctionEnd, None))
        },
        AstInstruction::If(e, i1, i2) => {
            let (l_else, ga) = fresh_label(g);
            let (l_end, gb) = fresh_label(ga);
            let (g1, v) = lower_expr(e, st, cur, gb);
            let g2 = emit(
                g1,
                iv(
                    None,
                    KindIV::JumpIf {
                        condition: JumpIfCondition::Equal,
                        left: v,
                        right: CtvV::C(0),
                        label: l_else,
                    },
                    Some("si "@ + expr_text(e)),
                ),
            );
            let g3 = lower_instrs(i1@, 0, st, cur, g2);
            let g4 = emit(g3, iv(None, KindIV::Jump { label: l_end }, None));
            let g5 = emit(g4, nop_at(l_else, "sinon"@));
            let g6 = lower_instrs(i2@, 0, st, cur, g5);
            emit(g6, nop_at(l_end, "fin si"@))
        },
        AstInstruction::While(e, i) => {
            let (l_begin, ga) = fresh_label(g);
            let (l_end, gb) = fresh_label(ga);
            let g1 = emit(gb, nop_at(l_begin, "tantque "@ + expr_text(e)));
            let (g2, v) = lower_expr(e, st, cur, g1);
            let g3 = emit(
                g2,
                iv(
                    None,
                    KindIV::JumpIf {
                        condition: JumpIfCondition::Equal,
                        left: v,
                        right: CtvV::C(0),
                        label: l_end,
                    },
                    Some("sort tantque"@),
                ),
            );
            let g4 = lower_instrs(i@, 0, st, cur, g3);
            let g5 = emit(g4, iv(None, KindIV::Jump { label: l_begin }, None));
            emit(g5, nop_at(l_end, "fin tantque"@))
        },
        AstInstruction::WriteFunction(e) => {
            let (g1, value) = lower_expr(e, st, cur, g);
            emit(g1, iv(None, KindIV::WriteFunction { value }, None))
        },
        AstInstruction::NOP => emit(g, iv(None, KindIV::NOP, None)),
    }
}

/// The lowering of the instructions from position `i` on.
pub open spec fn lower_instrs(
    ii: Seq<AstInstruction>,
    i: int,
    st: Seq<TableV>,
    cur: int,
    g: GenV,
) -> GenV
    decreases ii, ii.len() - i,
{
    if i < 0 || i >= ii.len() {
        g
    } else {
        lower_instrs(ii, i + 1, st, cur, lower_instr(ii[i], st, cur, g))
    }
}

/// The allocation for one scalar declaration.
pub open spec fn lower_scalar(s: Scalar, st: Seq<TableV>, cur: int, g: GenV) -> GenV {
    emit(
        g,
        iv(
            None,
            KindIV::Allocation {
                variable: Some(resolved_var(st, cur, s.1@, None)),
                size: 4,
            },
            None,
        ),
    )
}

/// The allocation for one vector declaration: four bytes per element.
pub open spec fn lower_vector(v: Vector, st: Seq<TableV>, cur: int, g: GenV) -> GenV {
    emit(
        g,
        iv(
            None,
            KindIV::Allocation {
                variable: Some(resolved_var(st, cur, v.2@, None)),
                size: 4 * (v.1 as int),
            },
            None,
        ),
    )
}

pub open spec fn lower_variable(v: AstVariable, st: Seq<TableV>, cur: int, g: GenV) -> GenV {
    match v {
        AstVariable::Scalar(s) => lower_scalar(s, st, cur, g),
        AstVariable::Vector(w) => lower_vector(w, st, cur, g),
    }
}

/// The allocations for the scalar declarations from position `i` on.
pub open spec fn lower_scalars(
    ss: Seq<Scalar>,
    i: int,
    st: Seq<TableV>,
    cur: int,
    g: GenV,
) -> GenV
    decreases ss.len() - i,
{
    if i < 0 || i >= ss.len() {
        g
    } else {
        lower_scalars(ss, i + 1, st, cur, lower_scalar(ss[i], st, cur, g))
    }
}

/// The lowering of one top-level statement. A function lowers its locals
/// and body inside its own child table.
pub open spec fn lower_stmt(s: Statement, st: Seq<TableV>, cur: int, g: GenV) -> GenV {
    match s {
        Statement::DclVariable(v) => lower_variable(v, st, cur, g),
        Statement::DclFunction(id, args, vars, body) => {
            let child = child_table(st, cur, id@);
            let g1 = emit(
                g,
                iv(
                    Some(flabel(id@)),
                    KindIV::FunctionBegin,
                    Some("début fonction "@ + id@),
                ),
            );
            let g2 = lower_scalars(vars@, 0, st, child, g1);
            let g3 = lower_instrs(body@, 0, st, child, g2);
            emit(g3, iv(None, KindIV::FunctionEnd, Some("fin fonction "@ + id@)))
        },
    }
}

/// The lowering of the statements from position `i` on.
pub open spec fn lower_stmts(
    ss: Seq<Statement>,
    i: int,
    st: Seq<TableV>,
    cur: int,
    g: GenV,
) -> GenV
    decreases ss.len() - i,
{
    if i < 0 || i >= ss.len() {
        g
    } else {
        lower_stmts(ss, i + 1, st, cur, lower_stmt(ss[i], st, cur, g))
    }
}

/// What generating code for the program computes.
pub open spec fn lower_program(p: Program, st: Seq<TableV>, cur: int) -> GenV {
    lower_stmts(p.0@, 0, st, cur, init_gen())
}


/// Whether every identifier a left-value uses resolves to a data symbol.
pub open spec fn lv_resolvable(lv: LeftValue, st: Seq<TableV>, cur: int) -> bool
    decreases lv,
{
    match lv {
        LeftValue::Variable(id) => first_variable(visible(st, cur), id@) is Some,
        LeftValue::VariableAt(id, e) => first_variable(visible(st, cur), id@) is Some
            && expr_resolvable(*e, st, cur),
    }
}

/// Whether every identifier an expression uses resolves.
pub open spec fn expr_resolvable(e: Expression, st: Seq<TableV>, cur: int) -> bool
    decreases e,
{
    match e {
        Expression::Value(_) => true,
        Expression::LeftValue(lv) => lv_resolvable(lv, st, cur),
        Expression::CallFunction(c) => forall|k: int|
            0 <= k < c.1@.len() ==> expr_resolvable(#[trigger] c.1@[k], st, cur),
        Expression::ReadFunction => true,
        Expression::UnaryOperation(_, e1) => expr_resolvable(*e1, st, cur),
        Expression::BinaryOperation(_, e1, e2) => expr_resolvable(*e1, st, cur)
            && expr_resolvable(*e2, st, cur),
    }
}

/// Whether every identifier an instruction uses resolves.
pub open spec fn instr_resolvable(ins: AstInstruction, st: Seq<TableV>, cur: int) -> bool
    decreases ins,
{
    match ins {
        AstInstruction::Affectation(lv, e) => lv_resolvable(lv, st, cur) && expr_resolvable(
            e,
            st,
            cur,
        ),
        AstInstruction::CallFunction(c) => forall|k: int|
            0 <= k < c.1@.len() ==> expr_resolvable(#[trigger] c.1@[k], st, cur),
        AstInstruction::Return(e) => expr_resolvable(e, st, cur),
        AstInstruction::If(e, i1, i2) => expr_resolvable(e, st, cur) && (forall|k: int|
            0 <= k < i1@.len() ==> instr_resolvable(#[trigger] i1@[k], st, cur)) && (forall|k: int|
            0 <= k < i2@.len() ==> instr_resolvable(#[trigger] i2@[k], st, cur)),
        AstInstruction::While(e, i) => expr_resolvable(e, st, cur) && (forall|k: int|
            0 <= k < i@.len() ==> instr_resolvable(#[trigger] i@[k], st, cur)),
        AstInstruction::WriteFunction(e) => expr_resolvable(e, st, cur),
        AstInstruction::NOP => true,
    }
}

/// Whether a top-level statement can be lowered against the table: its
/// identifiers resolve, a vector's byte size fits the constant operand, and
/// a function's recorded child table exists.
pub open spec fn stmt_gen_ok(s: Statement, st: Seq<TableV>, cur: int) -> bool
    decreases s,
{
    match s {
        Statement::DclVariable(AstVariable::Scalar(sc)) => first_variable(
            visible(st, cur),
            sc.1@,
        ) is Some,
        Statement::DclVariable(AstVariable::Vector(v)) => first_variable(
            visible(st, cur),
            v.2@,
        ) is Some && 4 * (v.1 as int) <= i32::MAX,
        Statement::DclFunction(id, args, vars, body) => {
            let child = child_table(st, cur, id@);
            &&& first_function(visible(st, cur), id@) is Some
            &&& first_function(visible(st, cur), id@)->Some_0.kind is Function
            &&& 0 <= child < st.len()
            &&& forall|k: int|
                0 <= k < vars@.len() ==> first_variable(
                    visible(st, child),
                    (#[trigger] vars@[k]).1@,
                ) is Some
            &&& forall|k: int|
                0 <= k < body@.len() ==> instr_resolvable(#[trigger] body@[k], st, child)
        },
    }
}

/// Whether the whole program can be lowered against the table.
pub open spec fn prog_gen_ok(p: Program, st: Seq<TableV>, cur: int) -> bool {
    forall|k: int| 0 <= k < p.0@.len() ==> stmt_gen_ok(#[trigger] p.0@[k], st, cur)
}

/// The counters never shrink from `a` to `b`.
pub open spec fn counters_le(a: GenV, b: GenV) -> bool {
    a.labels <= b.labels && a.temps <= b.temps && a.instrs.len() <= b.instrs.len()
}



/// The machine bounds the lowering of one expression needs, step by step:
/// each fresh label and temp stays below the `u32` counters, and each
/// emitted instruction's index fits the `i32` last-use records.
pub open spec fn fits_expr(e: Expression, st: Seq<TableV>, cur: int, g: GenV) -> bool
    decreases e, 2int,
{
    match e {
        Expression::Value(_) => true,
        Expression::LeftValue(lv) => fits_lv(lv, st, cur, g),
        Expression::CallFunction(c) => fits_call(c, st, cur, g),
        Expression::ReadFunction => g.temps < u32::MAX && g.instrs.len() < i32::MAX,
        Expression::UnaryOperation(_, e1) => {
            let ga = fresh_label(g).1;
            let g1 = lower_expr(*e1, st, cur, ga).0;
            g.labels < u32::MAX && fits_expr(*e1, st, cur, ga) && g1.temps < u32::MAX
                && g1.instrs.len() + 4 <= i32::MAX
        },
        Expression::BinaryOperation(op, e1, e2) => {
            match op {
                crate::ast::BinaryOperator::Addidion
                | crate::ast::BinaryOperator::Subtraction
                | crate::ast::BinaryOperator::Multiplication
                | crate::ast::BinaryOperator::Division => {
                    let g1 = lower_expr(*e1, st, cur, g).0;
                    let g2 = lower_expr(*e2, st, cur, g1).0;
                    fits_expr(*e1, st, cur, g) && fits_expr(*e2, st, cur, g1) && g2.temps
                        < u32::MAX && g2.instrs.len() < i32::MAX
                },
                crate::ast::BinaryOperator::And => {
                    let (l_end, ga) = fresh_label(g);
                    let (g1, left) = lower_expr(*e1, st, cur, ga);
                    let (t, g2) = fresh_temp(g1);
                    let g4 = emit(
                        emit(g2, set_t(t, 0, Some("début "@ + expr_text(e)))),
                        jump_eq(left, 0, l_end),
                    );
                    g.labels < u32::MAX && fits_expr(*e1, st, cur, ga) && g1.temps < u32::MAX
                        && g1.instrs.len() + 2 <= i32::MAX && fits_expr(*e2, st, cur, g4)
                        && lower_expr(*e2, st, cur, g4).0.instrs.len() + 3 <= i32::MAX
                },
                crate::ast::BinaryOperator::Or => {
                    let (l_end, ga) = fresh_label(g);
                    let (g1, left) = lower_expr(*e1, st, cur, ga);
                    let (t, g2) = fresh_temp(g1);
                    let g4 = emit(
                        emit(g2, set_t(t, 1, Some("début "@ + expr_text(e)))),
                        jump_eq(left, 1, l_end),
                    );
                    g.labels < u32::MAX && fits_expr(*e1, st, cur, ga) && g1.temps < u32::MAX
                        && g1.instrs.len() + 2 <= i32::MAX && fits_expr(*e2, st, cur, g4)
                        && lower_expr(*e2, st, cur, g4).0.instrs.len() + 3 <= i32::MAX
                },
                crate::ast::BinaryOperator::Equal | crate::ast::BinaryOperator::LessThan => {
                    let ga = fresh_label(g).1;
                    let g1 = lower_expr(*e1, st, cur, ga).0;
                    let g2 = lower_expr(*e2, st, cur, g1).0;
                    g.labels < u32::MAX && fits_expr(*e1, st, cur, ga) && fits_expr(
                        *e2,
                        st,
                        cur,
                        g1,
                    ) && g2.temps < u32::MAX && g2.instrs.len() + 4 <= i32::MAX
                },
            }
        },
    }
}

/// The machine bounds the lowering of a left-value needs.
pub open spec fn fits_lv(lv: LeftValue, st: Seq<TableV>, cur: int, g: GenV) -> bool
    decreases lv, 2int,
{
    match lv {
        LeftValue::Variable(_) => true,
        LeftValue::VariableAt(_, e) => fits_expr(*e, st, cur, g) && {
            let g1 = lower_expr(*e, st, cur, g).0;
            g1.temps < u32::MAX && g1.instrs.len() < i32::MAX
        },
    }
}

/// The machine bounds the lowering of a call needs.
pub open spec fn fits_call(c: CallFunction, st: Seq<TableV>, cur: int, g: GenV) -> bool
    decreases c, 3int,
{
    let g1 = emit(
        g,
        iv(
            None,
            KindIV::Allocation { variable: None, size: 1 },
            Some("début appel "@ + c.0@),
        ),
    );
    let g2 = lower_args(c.1@, 0, st, cur, g1);
    g.instrs.len() < i32::MAX && fits_args(c.1@, 0, st, cur, g1) && g2.temps < u32::MAX
        && g2.instrs.len() < i32::MAX
}

/// The machine bounds the lowering of the arguments from position `i` on
/// need.
pub open spec fn fits_args(es: Seq<Expression>, i: int, st: Seq<TableV>, cur: int, g: GenV) -> bool
    decreases es, es.len() - i, 4int,
{
    if i < 0 || i >= es.len() {
        true
    } else {
        fits_expr(es[i], st, cur, g) && {
            let (g1, v) = lower_expr(es[i], st, cur, g);
            g1.instrs.len() < i32::MAX && fits_args(
                es,
                i + 1,
                st,
                cur,
                emit(g1, iv(None, KindIV::FunctionPushArg { arg: v }, None)),
            )
        }
    }
}

/// The machine bounds the lowering of one instruction needs.
pub open spec fn fits_instr(ins: AstInstruction, st: Seq<TableV>, cur: int, g: GenV) -> bool
    decreases ins, 2int,
{
    match ins {
        AstInstruction::Affectation(lv, e) => fits_lv(lv, st, cur, g) && {
            let g1 = lower_lv(lv, st, cur, g).0;
            fits_expr(e, st, cur, g1) && lower_expr(e, st, cur, g1).0.instrs.len() < i32::MAX
        },
        AstInstruction::CallFunction(c) => fits_call(c, st, cur, g),
        AstInstruction::Return(e) => fits_expr(e, st, cur, g) && lower_expr(
            e,
            st,
            cur,
            g,
        ).0.instrs.len() + 2 <= i32::MAX,
        AstInstruction::If(e, i1, i2) => {
            let (l_else, ga) = fresh_label(g);
            let (l_end, gb) = fresh_label(ga);
            let (g1, v) = lower_expr(e, st, cur, gb);
            let g2 = emit(
                g1,
                iv(
                    None,
                    KindIV::JumpIf {
                        condition: JumpIfCondition::Equal,
                        left: v,
                        right: CtvV::C(0),
                        label: l_else,
                    },
                    Some("si "@ + expr_text(e)),
                ),
            );
            let g3 = lower_instrs(i1@, 0, st, cur, g2);
            let g5 = emit(
                emit(g3, iv(None, KindIV::Jump { label: l_end }, None)),
                nop_at(l_else, "sinon"@),
            );
            let g6 = lower_instrs(i2@, 0, st, cur, g5);
            g.labels + 2 <= u32::MAX && fits_expr(e, st, cur, gb) && g1.instrs.len() < i32::MAX
                && fits_instrs(i1@, 0, st, cur, g2) && g3.instrs.len() + 2 <= i32::MAX
                && fits_instrs(i2@, 0, st, cur, g5) && g6.instrs.len() < i32::MAX
        },
        AstInstruction::While(e, i) => {
            let (l_begin, ga) = fresh_label(g);
            let (l_end, gb) = fresh_label(ga);
            let g1 = emit(gb, nop_at(l_begin, "tantque "@ + expr_text(e)));
            let (g2, v) = lower_expr(e, st, cur, g1);
            let g3 = emit(
                g2,
                iv(
                    None,
                    KindIV::JumpIf {
                        condition: JumpIfCondition::Equal,
                        left: v,
                        right: CtvV::C(0),
                        label: l_end,
                    },
                    Some("sort tantque"@),
                ),
            );
            let g4 = lower_instrs(i@, 0, st, cur, g3);
            g.labels + 2 <= u32::MAX && g.instrs.len() < i32::MAX && fits_expr(e, st, cur, g1)
                && g2.instrs.len() < i32::MAX && fits_instrs(i@, 0, st, cur, g3)
                && g4.instrs.len() + 2 <= i32::MAX
        },
        AstInstruction::WriteFunction(e) => fits_expr(e, st, cur, g) && lower_expr(
            e,
            st,
            cur,
            g,
        ).0.instrs.len() < i32::MAX,
        AstInstruction::NOP => g.instrs.len() < i32::MAX,
    }
}

/// The machine bounds the lowering of the instructions from position `i` on
/// need.
pub open spec fn fits_instrs(
    ii: Seq<AstInstruction>,
    i: int,
    st: Seq<TableV>,
    cur: int,
    g: GenV,
) -> bool
    decreases ii, ii.len() - i, 3int,
{
    if i < 0 || i >= ii.len() {
        true
    } else {
        fits_instr(ii[i], st, cur, g) && fits_instrs(
            ii,
            i + 1,
            st,
            cur,
            lower_instr(ii[i], st, cur, g),
        )
    }
}

/// The machine bounds the allocations for the scalars from position `i` on
/// need.
pub open spec fn fits_scalars(ss: Seq<Scalar>, i: int, st: Seq<TableV>, cur: int, g: GenV) -> bool
    decreases ss.len() - i,
{
    if i < 0 || i >= ss.len() {
        true
    } else {
        g.instrs.len() < i32::MAX && fits_scalars(
            ss,
            i + 1,
            st,
            cur,
            lower_scalar(ss[i], st, cur, g),
        )
    }
}

/// The machine bounds the lowering of one statement needs.
pub open spec fn fits_stmt(s: Statement, st: Seq<TableV>, cur: int, g: GenV) -> bool
    decreases s,
{
    match s {
        Statement::DclVariable(_) => g.instrs.len() < i32::MAX,
        Statement::DclFunction(id, args, vars, body) => {
            let child = child_table(st, cur, id@);
            let g1 = emit(
                g,
                iv(
                    Some(flabel(id@)),
                    KindIV::FunctionBegin,
                    Some("début fonction "@ + id@),
                ),
            );
            let g2 = lower_scalars(vars@, 0, st, child, g1);
            let g3 = lower_instrs(body@, 0, st, child, g2);
            g.instrs.len() < i32::MAX && fits_scalars(vars@, 0, st, child, g1) && fits_instrs(
                body@,
                0,
                st,
                child,
                g2,
            ) && g3.instrs.len() < i32::MAX
        },
    }
}

/// The machine bounds the lowering of the statements from position `i` on
/// need.
pub open spec fn fits_stmts(ss: Seq<Statement>, i: int, st: Seq<TableV>, cur: int, g: GenV) -> bool
    decreases ss.len() - i,
{
    if i < 0 || i >= ss.len() {
        true
    } else {
        fits_stmt(ss[i], st, cur, g) && fits_stmts(
            ss,
            i + 1,
            st,
            cur,
            lower_stmt(ss[i], st, cur, g),
        )
    }
}

/// The machine bounds the whole generation needs. Any real program meets
/// them.
pub open spec fn fits_program(p: Program, st: Seq<TableV>, cur: int) -> bool {
    fits_stmts(p.0@, 0, st, cur, init_gen())
}

/// Viewing a vector of instructions commutes with appending one.
pub proof fn lemma_instrs_view_push(s: Seq<TacInstruction>, x: TacInstruction)
    ensures
        instrs_view(s.push(x)) == instrs_view(s).push(x@),
{
    assert(instrs_view(s.push(x)) =~= instrs_view(s).push(x@));
}

/// An instruction whose temps are all allocated reads no temp beyond them.
pub proof fn lemma_reads_lt(k: KindIV, n: int, t: int)
    requires
        kind_temps_lt(k, n),
        t >= n,
    ensures
        !kind_reads(k, t),
{
    match k {
        KindIV::Arithmetic { .. } => {},
        KindIV::Affectation { .. } => {},
        KindIV::Allocation { .. } => {},
        KindIV::ReadFunction { .. } => {},
        KindIV::WriteFunction { .. } => {},
        KindIV::FunctionCall { .. } => {},
        KindIV::FunctionBegin => {},
        KindIV::FunctionEnd => {},
        KindIV::FunctionPushArg { .. } => {},
        KindIV::FunctionReturn { .. } => {},
        KindIV::Jump { .. } => {},
        KindIV::JumpIf { .. } => {},
        KindIV::NOP => {},
    }
}

/// The generator's walk state: the label and temp counters, the emitted
/// instructions, and the last-use table.
#[derive(Debug)]
pub struct Data {
    pub label_count: u32,
    pub temp_count: u32,
    pub instructions: Vec<TacInstruction>,
    pub last_uses: Vec<i32>,
}

impl View for Data {
    type V = GenV;

    open spec fn view(&self) -> GenV {
        GenV {
            labels: self.label_count as int,
            temps: self.temp_count as int,
            instrs: instrs_view(self.instructions@),
            last_uses: self.last_uses@.map_values(|x: i32| x as int),
        }
    }
}

impl Data {
    /// A fresh generator state.
    pub fn new() -> (r: Data)
        ensures
            r@ == init_gen(),
            ginv(r@),
    {
        let r = Data {
            label_count: 0,
            temp_count: 0,
            instructions: Vec::new(),
            last_uses: Vec::new(),
        };
        proof {
            assert(r@.instrs =~= init_gen().instrs);
            assert(r@.last_uses =~= init_gen().last_uses);
        }
        r
    }

    /// The next fresh label, `e{k}`.
    fn new_label(&mut self) -> (r: Label)
        requires
            old(self)@.labels < u32::MAX,
        ensures
            r@ == fresh_label(old(self)@).0,
            final(self)@ == fresh_label(old(self)@).1,
    {
        let mut s = "e".to_owned();
        s.append(u64_to_string(self.label_count as u64).as_str());
        let l = Label::new(s);
        self.label_count = self.label_count + 1;
        proof {
            assert(final(self)@.instrs == old(self)@.instrs);
            assert(final(self)@.last_uses == old(self)@.last_uses);
        }
        l
    }

    /// The next fresh temp, with no recorded use yet.
    fn new_temp(&mut self) -> (r: Temp)
        requires
            old(self)@.temps < u32::MAX,
            ginv(old(self)@),
        ensures
            r@ == fresh_temp(old(self)@).0,
            final(self)@ == fresh_temp(old(self)@).1,
            ginv(final(self)@),
    {
        let t = Temp::new(self.temp_count);
        self.temp_count = self.temp_count + 1;
        self.last_uses.push(-1);
        proof {
            assert(final(self)@.last_uses =~= old(self)@.last_uses.push(-1));
            assert(final(self)@.instrs == old(self)@.instrs);
            let g = final(self)@;
            let n = old(self)@.temps;
            assert forall|x: int| 0 <= x < g.temps implies ((g.last_uses[x] == -1 && forall|i: int|
                !#[trigger] reads_at(g.instrs, i, x)) || (#[trigger] reads_at(
                g.instrs,
                g.last_uses[x],
                x,
            ) && forall|i: int| #[trigger] reads_at(g.instrs, i, x) ==> i <= g.last_uses[x])) by {
                if x < n {
                    assert(g.last_uses[x] == old(self)@.last_uses[x]);
                } else {
                    assert(g.last_uses[x] == -1);
                    assert forall|i: int| !#[trigger] reads_at(g.instrs, i, x) by {
                        if 0 <= i < g.instrs.len() {
                            lemma_reads_lt(g.instrs[i].kind, n, x);
                        }
                    }
                }
            }
        }
        t
    }

    /// Records `idx` as the last use of temp `t`.
    fn set_last(&mut self, t: &Temp, idx: i32)
        requires
            0 <= t@ < old(self)@.last_uses.len(),
        ensures
            final(self)@.last_uses == Seq::new(
                old(self)@.last_uses.len(),
                |x: int|
                    if x == t@ {
                        idx as int
                    } else {
                        old(self)@.last_uses[x]
                    },
            ),
            final(self).instructions == old(self).instructions,
            final(self).label_count == old(self).label_count,
            final(self).temp_count == old(self).temp_count,
    {
        let i = t.temp() as usize;
        self.last_uses[i] = idx;
        proof {
            assert(final(self)@.last_uses =~= Seq::new(
                old(self)@.last_uses.len(),
                |x: int|
                    if x == t@ {
                        idx as int
                    } else {
                        old(self)@.last_uses[x]
                    },
            ));
        }
    }

    /// Marks the temps a source operand reads.
    fn mark_ctv(&mut self, o: &CTV, idx: i32)
        requires
            ctv_temps_lt(o@, old(self)@.last_uses.len() as int),
        ensures
            final(self)@.last_uses == Seq::new(
                old(self)@.last_uses.len(),
                |x: int|
                    if ctv_reads(o@, x) {
                        idx as int
                    } else {
                        old(self)@.last_uses[x]
                    },
            ),
            final(self).instructions == old(self).instructions,
            final(self).label_count == old(self).label_count,
            final(self).temp_count == old(self).temp_count,
    {
        match o {
            CTV::C(_) => {
                proof {
                    assert(final(self)@.last_uses =~= Seq::new(
                        old(self)@.last_uses.len(),
                        |x: int|
                            if ctv_reads(o@, x) {
                                idx as int
                            } else {
                                old(self)@.last_uses[x]
                            },
                    ));
                }
            },
            CTV::T(t) => {
                self.set_last(t, idx);
            },
            CTV::V(v) => {
                self.mark_var(v, idx);
            },
        }
    }

    /// Marks the temp a variable operand's index reads.
    fn mark_var(&mut self, v: &TacVariable, idx: i32)
        requires
            var_temps_lt(v@, old(self)@.last_uses.len() as int),
        ensures
            final(self)@.last_uses == Seq::new(
                old(self)@.last_uses.len(),
                |x: int|
                    if var_reads(v@, x) {
                        idx as int
                    } else {
                        old(self)@.last_uses[x]
                    },
            ),
            final(self).instructions == old(self).instructions,
            final(self).label_count == old(self).label_count,
            final(self).temp_count == old(self).temp_count,
    {
        match &v.indice {
            Some(CT::T(t)) => {
                self.set_last(t, idx);
            },
            _ => {
                proof {
                    assert(final(self)@.last_uses =~= Seq::new(
                        old(self)@.last_uses.len(),
                        |x: int|
                            if var_reads(v@, x) {
                                idx as int
                            } else {
                                old(self)@.last_uses[x]
                            },
                    ));
                }
            },
        }
    }

    /// Marks the temp a destination's variable index reads; a temp written
    /// to is not read.
    fn mark_tv(&mut self, o: &TV, idx: i32)
        requires
            tv_temps_lt(o@, old(self)@.last_uses.len() as int),
        ensures
            final(self)@.last_uses == Seq::new(
                old(self)@.last_uses.len(),
                |x: int|
                    if tv_dest_reads(o@, x) {
                        idx as int
                    } else {
                        old(self)@.last_uses[x]
                    },
            ),
            final(self).instructions == old(self).instructions,
            final(self).label_count == old(self).label_count,
            final(self).temp_count == old(self).temp_count,
    {
        match o {
            TV::T(_) => {
                proof {
                    assert(final(self)@.last_uses =~= Seq::new(
                        old(self)@.last_uses.len(),
                        |x: int|
                            if tv_dest_reads(o@, x) {
                                idx as int
                            } else {
                                old(self)@.last_uses[x]
                            },
                    ));
                }
            },
            TV::V(v) => {
                self.mark_var(v, idx);
            },
        }
    }

    /// Appends an instruction, recording it as the last use of every temp
    /// it reads.
    #[verifier::rlimit(50)]
    #[verifier::spinoff_prover]
    fn add_instr(&mut self, instr: TacInstruction)
        requires
            ginv(old(self)@),
            kind_temps_lt(instr@.kind, old(self)@.temps),
            old(self)@.instrs.len() < i32::MAX,
        ensures
            final(self)@ == emit(old(self)@, instr@),
            ginv(final(self)@),
    {
        let idx = self.instructions.len() as i32;
        match &instr.kind {
            InstructionKind::Arithmetic { left, right, result, .. } => {
                self.mark_ctv(left, idx);
                self.mark_ctv(right, idx);
                self.mark_tv(result, idx);
            },
            InstructionKind::Affectation { value, result } => {
                self.mark_ctv(value, idx);
                self.mark_tv(result, idx);
            },
            InstructionKind::Allocation { .. } => {},
            InstructionKind::ReadFunction { result } => {
                self.mark_tv(result, idx);
            },
            InstructionKind::WriteFunction { value } => {
                self.mark_ctv(value, idx);
            },
            InstructionKind::FunctionCall { result, .. } => {
                self.mark_tv(result, idx);
            },
            InstructionKind::FunctionBegin => {},
            InstructionKind::FunctionEnd => {},
            InstructionKind::FunctionPushArg { arg } => {
                self.mark_ctv(arg, idx);
            },
            InstructionKind::FunctionReturn { value } => {
                self.mark_ctv(value, idx);
            },
            InstructionKind::Jump { .. } => {},
            InstructionKind::JumpIf { left, right, .. } => {
                self.mark_ctv(left, idx);
                self.mark_ctv(right, idx);
            },
            InstructionKind::NOP => {},
        }
        proof {
            assert(self@.last_uses =~= Seq::new(
                old(self)@.last_uses.len(),
                |x: int|
                    if kind_reads(instr@.kind, x) {
                        old(self)@.instrs.len() as int
                    } else {
                        old(self)@.last_uses[x]
                    },
            ));
        }
        self.instructions.push(instr);
        proof {
            assert(final(self)@.instrs =~= old(self)@.instrs.push(instr@)) by {
                assert(final(self).instructions@ == old(self).instructions@.push(instr));
                assert forall|j: int|
                    0 <= j < final(self)@.instrs.len() implies final(self)@.instrs[j] == old(
                    self,
                )@.instrs.push(instr@)[j] by {
                    if j < old(self).instructions@.len() {
                        assert(final(self).instructions@[j] == old(self).instructions@[j]);
                    } else {
                        assert(final(self).instructions@[j] == instr);
                    }
                }
            }
            assert(final(self)@ == emit(old(self)@, instr@));
            let g = final(self)@;
            let g0 = old(self)@;
            let idxi = g0.instrs.len() as int;
            assert(lu_ok(g0));
            assert forall|x: int| 0 <= x < g.temps implies ((g.last_uses[x] == -1 && forall|i: int|
                !#[trigger] reads_at(g.instrs, i, x)) || (#[trigger] reads_at(
                g.instrs,
                g.last_uses[x],
                x,
            ) && forall|i: int| #[trigger] reads_at(g.instrs, i, x) ==> i <= g.last_uses[x])) by {
                assert((g0.last_uses[x] == -1 && forall|i: int|
                    !#[trigger] reads_at(g0.instrs, i, x)) || (#[trigger] reads_at(
                    g0.instrs,
                    g0.last_uses[x],
                    x,
                ) && forall|i: int|
                    #[trigger] reads_at(g0.instrs, i, x) ==> i <= g0.last_uses[x]));
                if kind_reads(instr@.kind, x) {
                    assert(g.instrs[idxi] == instr@);
                    assert(g.last_uses[x] == idxi);
                    assert(reads_at(g.instrs, idxi, x));
                    assert forall|i: int| #[trigger] reads_at(g.instrs, i, x) implies i
                        <= g.last_uses[x] by {}
                } else {
                    assert(g.last_uses[x] == g0.last_uses[x]);
                    assert forall|i: int|
                        #[trigger] reads_at(g.instrs, i, x) implies reads_at(g0.instrs, i, x) by {
                        if 0 <= i < g0.instrs.len() {
                            assert(g.instrs[i] == g0.instrs[i]);
                        } else {
                            assert(i == idxi);
                            assert(g.instrs[i] == instr@);
                            assert(!kind_reads(g.instrs[i].kind, x));
                        }
                    }
                    assert forall|i: int|
                        #[trigger] reads_at(g0.instrs, i, x) implies reads_at(g.instrs, i, x) by {
                        assert(g.instrs[i] == g0.instrs[i]);
                    }
                    if g0.last_uses[x] == -1 && (forall|i: int|
                        !#[trigger] reads_at(g0.instrs, i, x)) {
                        assert forall|i: int| !#[trigger] reads_at(g.instrs, i, x) by {
                            if reads_at(g.instrs, i, x) {
                                assert(reads_at(g0.instrs, i, x));
                            }
                        }
                    } else {
                        assert(reads_at(g0.instrs, g0.last_uses[x], x));
                        assert(reads_at(g.instrs, g.last_uses[x], x));
                        assert forall|i: int|
                            #[trigger] reads_at(g.instrs, i, x) implies i <= g.last_uses[x] by {
                            assert(reads_at(g0.instrs, i, x));
                        }
                    }
                }
            }
        }
    }
}

/// Builds the operand for `id` resolved in the chain of table `cur`: the
/// nearest data symbol's address and scope under the printed name `v{id}`.
fn resolve_operand(st: &SymbolTable, cur: usize, id: &String, indice: Option<CT>) -> (r:
    TacVariable)
    requires
        st_wf(st@),
        cur < st@.len(),
        first_variable(visible(st@, cur as int), id@) is Some,
    ensures
        r@ == resolved_var(
            st@,
            cur as int,
            id@,
            match indice {
                Some(ct) => Some(ct@),
                None => None,
            },
        ),
{
    let syms = st.iter(cur);
    match find_variable(&syms, id) {
        Some(i) => {
            let sym = &syms[i];
            let mut name = "v".to_owned();
            name.append(id.as_str());
            let scope = match sym.kind {
                crate::symbol_table::SymbolKind::Scalar { scope } => scope,
                crate::symbol_table::SymbolKind::Vector { scope, .. } => scope,
                crate::symbol_table::SymbolKind::Function { .. } => Scope::Global,
            };
            TacVariable::new(name, indice, sym.address, scope)
        },
        None => unreached(),
    }
}




impl Expression {
    /// Lowers the expression, returning the operand that holds its value.
    #[verifier::rlimit(60)]
    #[verifier::spinoff_prover]
    pub fn gen(&self, st: &SymbolTable, cur: usize, d: &mut Data) -> (r: CTV)
        requires
            st_wf(st@),
            cur < st@.len(),
            expr_resolvable(*self, st@, cur as int),
            ginv(old(d)@),
            fits_expr(*self, st@, cur as int, old(d)@),
        ensures
            final(d)@ == lower_expr(*self, st@, cur as int, old(d)@).0,
            r@ == lower_expr(*self, st@, cur as int, old(d)@).1,
            ginv(final(d)@),
            ctv_temps_lt(r@, final(d)@.temps),
            counters_le(old(d)@, final(d)@),
        decreases *self,
    {
        match self {
            Expression::Value(n) => CTV::C(Constant::new(*n)),
            Expression::LeftValue(lv) => {
                let v = lv.gen(st, cur, d);
                CTV::V(v)
            },
            Expression::CallFunction(c) => c.gen(st, cur, d),
            Expression::ReadFunction => {
                let t = d.new_temp();
                d.add_instr(
                    TacInstruction {
                        label: None,
                        kind: InstructionKind::ReadFunction { result: TV::T(t) },
                        comment: None,
                    },
                );
                CTV::T(t)
            },
            Expression::UnaryOperation(_, e1) => {
                let l_end = d.new_label();
                let v = e1.gen(st, cur, d);
                let t = d.new_temp();
                let mut c0 = "début ".to_owned();
                c0.append(self.to_text().as_str());
                d.add_instr(
                    TacInstruction {
                        label: None,
                        kind: InstructionKind::Affectation {
                            value: CTV::C(Constant::new(0)),
                            result: TV::T(t),
                        },
                        comment: Some(c0),
                    },
                );
                d.add_instr(
                    TacInstruction {
                        label: None,
                        kind: InstructionKind::JumpIf {
                            condition: JumpIfCondition::Equal,
                            left: v,
                            right: CTV::C(Constant::new(0)),
                            label: l_end.clone(),
                        },
                        comment: None,
                    },
                );
                d.add_instr(
                    TacInstruction {
                        label: None,
                        kind: InstructionKind::Affectation {
                            value: CTV::C(Constant::new(1)),
                            result: TV::T(t),
                        },
                        comment: None,
                    },
                );
                let mut c1 = "fin ".to_owned();
                c1.append(self.to_text().as_str());
                d.add_instr(
                    TacInstruction {
                        label: Some(l_end),
                        kind: InstructionKind::NOP,
                        comment: Some(c1),
                    },
                );
                CTV::T(t)
            },
            Expression::BinaryOperation(op, e1, e2) => {
                match op {
                    crate::ast::BinaryOperator::Addidion
                    | crate::ast::BinaryOperator::Subtraction
                    | crate::ast::BinaryOperator::Multiplication
                    | crate::ast::BinaryOperator::Division => {
                        let operator = match op {
                            crate::ast::BinaryOperator::Addidion => ArithmeticOperator::Addition,
                            crate::ast::BinaryOperator::Subtraction => ArithmeticOperator::Subtraction,
                            crate::ast::BinaryOperator::Multiplication => ArithmeticOperator::Multiplication,
                            _ => ArithmeticOperator::Division,
                        };
                        let left = e1.gen(st, cur, d);
                        let right = e2.gen(st, cur, d);
                        let t = d.new_temp();
                        d.add_instr(
                            TacInstruction {
                                label: None,
                                kind: InstructionKind::Arithmetic {
                                    operator,
                                    left,
                                    right,
                                    result: TV::T(t),
                                },
                                comment: Some(self.to_text()),
                            },
                        );
                        CTV::T(t)
                    },
                    crate::ast::BinaryOperator::And => {
                        let l_end = d.new_label();
                        let left = e1.gen(st, cur, d);
                        let t = d.new_temp();
                        let mut c0 = "début ".to_owned();
                        c0.append(self.to_text().as_str());
                        d.add_instr(
                            TacInstruction {
                                label: None,
                                kind: InstructionKind::Affectation {
                                    value: CTV::C(Constant::new(0)),
                                    result: TV::T(t),
                                },
                                comment: Some(c0),
                            },
                        );
                        d.add_instr(
                            TacInstruction {
                                label: None,
                                kind: InstructionKind::JumpIf {
                                    condition: JumpIfCondition::Equal,
                                    left,
                                    right: CTV::C(Constant::new(0)),
                                    label: l_end.clone(),
                                },
                                comment: None,
                            },
                        );
                        let left2 = e2.gen(st, cur, d);
                        d.add_instr(
                            TacInstruction {
                                label: None,
                                kind: InstructionKind::JumpIf {
                                    condition: JumpIfCondition::Equal,
                                    left: left2,
                                    right: CTV::C(Constant::new(0)),
                                    label: l_end.clone(),
                                },
                                comment: None,
                            },
                        );
                        d.add_instr(
                            TacInstruction {
                                label: None,
                                kind: InstructionKind::Affectation {
                                    value: CTV::C(Constant::new(1)),
                                    result: TV::T(t),
                                },
                                comment: None,
                            },
                        );
                        let mut c1 = "fin ".to_owned();
                        c1.append(self.to_text().as_str());
                        d.add_instr(
                            TacInstruction {
                                label: Some(l_end),
                                kind: InstructionKind::NOP,
                                comment: Some(c1),
                            },
                        );
                        CTV::T(t)
                    },
                    crate::ast::BinaryOperator::Or => {
                        let l_end = d.new_label();
                        let left = e1.gen(st, cur, d);
                        let t = d.new_temp();
                        let mut c0 = "début ".to_owned();
                        c0.append(self.to_text().as_str());
                        d.add_instr(
                            TacInstruction {
                                label: None,
                                kind: InstructionKind::Affectation {
                                    value: CTV::C(Constant::new(1)),
                                    result: TV::T(t),
                                },
                                comment: Some(c0),
                            },
                        );
                        d.add_instr(
                            TacInstruction {
                                label: None,
                                kind: InstructionKind::JumpIf {
                                    condition: JumpIfCondition::Equal,
                                    left,
                                    right: CTV::C(Constant::new(1)),
                                    label: l_end.clone(),
                                },
                                comment: None,
                            },
                        );
                        let left2 = e2.gen(st, cur, d);
                        d.add_instr(
                            TacInstruction {
                                label: None,
                                kind: InstructionKind::JumpIf {
                                    condition: JumpIfCondition::Equal,
                                    left: left2,
                                    right: CTV::C(Constant::new(1)),
                                    label: l_end.clone(),
                                },
                                comment: None,
                            },
                        );
                        d.add_instr(
                            TacInstruction {
                                label: None,
                                kind: InstructionKind::Affectation {
                                    value: CTV::C(Constant::new(0)),
                                    result: TV::T(t),
                                },
                                comment: None,
                            },
                        );
                        let mut c1 = "fin ".to_owned();
                        c1.append(self.to_text().as_str());
                        d.add_instr(
                            TacInstruction {
                                label: Some(l_end),
                                kind: InstructionKind::NOP,
                                comment: Some(c1),
                            },
                        );
                        CTV::T(t)
                    },
                    crate::ast::BinaryOperator::Equal | crate::ast::BinaryOperator::LessThan => {
                        let condition = match op {
                            crate::ast::BinaryOperator::Equal => JumpIfCondition::Equal,
                            _ => JumpIfCondition::Less,
                        };
                        let l_end = d.new_label();
                        let left = e1.gen(st, cur, d);
                        let right = e2.gen(st, cur, d);
                        let t = d.new_temp();
                        let mut c0 = "début ".to_owned();
                        c0.append(self.to_text().as_str());
                        d.add_instr(
                            TacInstruction {
                                label: None,
                                kind: InstructionKind::Affectation {
                                    value: CTV::C(Constant::new(1)),
                                    result: TV::T(t),
                                },
                                comment: Some(c0),
                            },
                        );
                        d.add_instr(
                            TacInstruction {
                                label: None,
                                kind: InstructionKind::JumpIf {
                                    condition,
                                    left,
                                    right,
                                    label: l_end.clone(),
                                },
                                comment: None,
                            },
                        );
                        d.add_instr(
                            TacInstruction {
                                label: None,
                                kind: InstructionKind::Affectation {
                                    value: CTV::C(Constant::new(0)),
                                    result: TV::T(t),
                                },
                                comment: None,
                            },
                        );
                        let mut c1 = "fin ".to_owned();
                        c1.append(self.to_text().as_str());
                        d.add_instr(
                            TacInstruction {
                                label: Some(l_end),
                                kind: InstructionKind::NOP,
                                comment: Some(c1),
                            },
                        );
                        CTV::T(t)
                    },
                }
            },
        }
    }
}

impl LeftValue {
    /// Lowers the left-value into a variable operand; a variable index is
    /// first copied into a fresh temp.
    pub fn gen(&self, st: &SymbolTable, cur: usize, d: &mut Data) -> (r: TacVariable)
        requires
            st_wf(st@),
            cur < st@.len(),
            lv_resolvable(*self, st@, cur as int),
            ginv(old(d)@),
            fits_lv(*self, st@, cur as int, old(d)@),
        ensures
            final(d)@ == lower_lv(*self, st@, cur as int, old(d)@).0,
            r@ == lower_lv(*self, st@, cur as int, old(d)@).1,
            ginv(final(d)@),
            var_temps_lt(r@, final(d)@.temps),
            counters_le(old(d)@, final(d)@),
        decreases *self,
    {
        match self {
            LeftValue::Variable(id) => resolve_operand(st, cur, id, None),
            LeftValue::VariableAt(id, e) => {
                let v = e.gen(st, cur, d);
                match v {
                    CTV::C(c) => resolve_operand(st, cur, id, Some(CT::C(c))),
                    CTV::T(t) => resolve_operand(st, cur, id, Some(CT::T(t))),
                    CTV::V(w) => {
                        let t = d.new_temp();
                        d.add_instr(
                            TacInstruction {
                                label: None,
                                kind: InstructionKind::Affectation {
                                    value: CTV::V(w),
                                    result: TV::T(t),
                                },
                                comment: None,
                            },
                        );
                        resolve_operand(st, cur, id, Some(CT::T(t)))
                    },
                }
            },
        }
    }
}

impl CallFunction {
    /// Lowers a call: reserves the return slot, pushes the arguments, and
    /// calls into a fresh temp.
    pub fn gen(&self, st: &SymbolTable, cur: usize, d: &mut Data) -> (r: CTV)
        requires
            st_wf(st@),
            cur < st@.len(),
            forall|k: int|
                0 <= k < self.1@.len() ==> expr_resolvable(
                    #[trigger] self.1@[k],
                    st@,
                    cur as int,
                ),
            ginv(old(d)@),
            fits_call(*self, st@, cur as int, old(d)@),
        ensures
            final(d)@ == lower_call(*self, st@, cur as int, old(d)@).0,
            r@ == lower_call(*self, st@, cur as int, old(d)@).1,
            ginv(final(d)@),
            ctv_temps_lt(r@, final(d)@.temps),
            counters_le(old(d)@, final(d)@),
        decreases *self,
    {
        let mut c0 = "début appel ".to_owned();
        c0.append(self.0.as_str());
        d.add_instr(
            TacInstruction {
                label: None,
                kind: InstructionKind::Allocation { variable: None, size: Constant::new(1) },
                comment: Some(c0),
            },
        );
        gen_arguments(&self.1, st, cur, d);
        let t = d.new_temp();
        let mut name = "f".to_owned();
        name.append(self.0.as_str());
        let mut c1 = "fin appel ".to_owned();
        c1.append(self.0.as_str());
        d.add_instr(
            TacInstruction {
                label: None,
                kind: InstructionKind::FunctionCall {
                    function: Label::new(name),
                    result: TV::T(t),
                },
                comment: Some(c1),
            },
        );
        CTV::T(t)
    }
}

/// Lowers each argument in order and pushes it.
pub fn gen_arguments(es: &Vec<Expression>, st: &SymbolTable, cur: usize, d: &mut Data)
    requires
        st_wf(st@),
        cur < st@.len(),
        forall|k: int|
            0 <= k < es@.len() ==> expr_resolvable(#[trigger] es@[k], st@, cur as int),
        ginv(old(d)@),
        fits_args(es@, 0, st@, cur as int, old(d)@),
    ensures
        final(d)@ == lower_args(es@, 0, st@, cur as int, old(d)@),
        ginv(final(d)@),
        counters_le(old(d)@, final(d)@),
    decreases es@,
{
    let n = es.len();
    let mut i: usize = 0;
    while i < n
        invariant
            i <= n,
            n == es@.len(),
            st_wf(st@),
            cur < st@.len(),
            forall|k: int|
                0 <= k < es@.len() ==> expr_resolvable(#[trigger] es@[k], st@, cur as int),
            ginv(d@),
            counters_le(old(d)@, d@),
            fits_args(es@, i as int, st@, cur as int, d@),
            lower_args(es@, 0, st@, cur as int, old(d)@) == lower_args(
                es@,
                i as int,
                st@,
                cur as int,
                d@,
            ),
        decreases n - i,
    {
        let v = es[i].gen(st, cur, d);
        d.add_instr(
            TacInstruction {
                label: None,
                kind: InstructionKind::FunctionPushArg { arg: v },
                comment: None,
            },
        );
        i = i + 1;
    }
}


impl AstInstruction {
    /// Lowers one instruction.
    #[verifier::rlimit(60)]
    #[verifier::spinoff_prover]
    pub fn gen(&self, st: &SymbolTable, cur: usize, d: &mut Data)
        requires
            st_wf(st@),
            cur < st@.len(),
            instr_resolvable(*self, st@, cur as int),
            ginv(old(d)@),
            fits_instr(*self, st@, cur as int, old(d)@),
        ensures
            final(d)@ == lower_instr(*self, st@, cur as int, old(d)@),
            ginv(final(d)@),
            counters_le(old(d)@, final(d)@),
        decreases *self,
    {
        match self {
            AstInstruction::Affectation(lv, e) => {
                let lhs = lv.gen(st, cur, d);
                let value = e.gen(st, cur, d);
                d.add_instr(
                    TacInstruction {
                        label: None,
                        kind: InstructionKind::Affectation { value, result: TV::V(lhs) },
                        comment: None,
                    },
                );
            },
            AstInstruction::CallFunction(c) => {
                let _ = c.gen(st, cur, d);
            },
            AstInstruction::Return(e) => {
                let value = e.gen(st, cur, d);
                let mut c0 = "retourne ".to_owned();
                c0.append(e.to_text().as_str());
                d.add_instr(
                    TacInstruction {
                        label: None,
                        kind: InstructionKind::FunctionReturn { value },
                        comment: Some(c0),
                    },
                );
                d.add_instr(
                    TacInstruction {
                        label: None,
                        kind: InstructionKind::FunctionEnd,
                        comment: None,
                    },
                );
            },
            AstInstruction::If(e, i1, i2) => {
                let l_else = d.new_label();
                let l_end = d.new_label();
                let v = e.gen(st, cur, d);
                let mut c0 = "si ".to_owned();
                c0.append(e.to_text().as_str());
                d.add_instr(
                    TacInstruction {
                        label: None,
                        kind: InstructionKind::JumpIf {
                            condition: JumpIfCondition::Equal,
                            left: v,
                            right: CTV::C(Constant::new(0)),
                            label: l_else.clone(),
                        },
                        comment: Some(c0),
                    },
                );
                gen_instructions(i1, st, cur, d);
                d.add_instr(
                    TacInstruction {
                        label: None,
                        kind: InstructionKind::Jump { label: l_end.clone() },
                        comment: None,
                    },
                );
                d.add_instr(
                    TacInstruction {
                        label: Some(l_else),
                        kind: InstructionKind::NOP,
                        comment: Some("sinon".to_owned()),
                    },
                );
                gen_instructions(i2, st, cur, d);
                d.add_instr(
                    TacInstruction {
                        label: Some(l_end),
                        kind: InstructionKind::NOP,
                        comment: Some("fin si".to_owned()),
                    },
                );
            },
            AstInstruction::While(e, i) => {
                let l_begin = d.new_label();
                let l_end = d.new_label();
                let mut c0 = "tantque ".to_owned();
                c0.append(e.to_text().as_str());
                d.add_instr(
                    TacInstruction {
                        label: Some(l_begin.clone()),
                        kind: InstructionKind::NOP,
                        comment: Some(c0),
                    },
                );
                let v = e.gen(st, cur, d);
                d.add_instr(
                    TacInstruction {
                        label: None,
                        kind: InstructionKind::JumpIf {
                            condition: JumpIfCondition::Equal,
                            left: v,
                            right: CTV::C(Constant::new(0)),
                            label: l_end.clone(),
                        },
                        comment: Some("sort tantque".to_owned()),
                    },
                );
                gen_instructions(i, st, cur, d);
                d.add_instr(
                    TacInstruction {
                        label: None,
                        kind: InstructionKind::Jump { label: l_begin },
                        comment: None,
                    },
                );
                d.add_instr(
                    TacInstruction {
                        label: Some(l_end),
                        kind: InstructionKind::NOP,
                        comment: Some("fin tantque".to_owned()),
                    },
                );
            },
            AstInstruction::WriteFunction(e) => {
                let value = e.gen(st, cur, d);
                d.add_instr(
                    TacInstruction {
                        label: None,
                        kind: InstructionKind::WriteFunction { value },
                        comment: None,
                    },
                );
            },
            AstInstruction::NOP => {
                d.add_instr(
                    TacInstruction { label: None, kind: InstructionKind::NOP, comment: None },
                );
            },
        }
    }
}

/// Lowers the instructions in order.
pub fn gen_instructions(ii: &Vec<AstInstruction>, st: &SymbolTable, cur: usize, d: &mut Data)
    requires
        st_wf(st@),
        cur < st@.len(),
        forall|k: int|
            0 <= k < ii@.len() ==> instr_resolvable(#[trigger] ii@[k], st@, cur as int),
        ginv(old(d)@),
        fits_instrs(ii@, 0, st@, cur as int, old(d)@),
    ensures
        final(d)@ == lower_instrs(ii@, 0, st@, cur as int, old(d)@),
        ginv(final(d)@),
        counters_le(old(d)@, final(d)@),
    decreases ii@,
{
    let n = ii.len();
    let mut i: usize = 0;
    while i < n
        invariant
            i <= n,
            n == ii@.len(),
            st_wf(st@),
            cur < st@.len(),
            forall|k: int|
                0 <= k < ii@.len() ==> instr_resolvable(#[trigger] ii@[k], st@, cur as int),
            ginv(d@),
            counters_le(old(d)@, d@),
            fits_instrs(ii@, i as int, st@, cur as int, d@),
            lower_instrs(ii@, 0, st@, cur as int, old(d)@) == lower_instrs(
                ii@,
                i as int,
                st@,
                cur as int,
                d@,
            ),
        decreases n - i,
    {
        ii[i].gen(st, cur, d);
        i = i + 1;
    }
}

impl Scalar {
    /// Emits the allocation for a scalar declaration.
    pub fn gen(&self, st: &SymbolTable, cur: usize, d: &mut Data)
        requires
            st_wf(st@),
            cur < st@.len(),
            first_variable(visible(st@, cur as int), self.1@) is Some,
            ginv(old(d)@),
            old(d)@.instrs.len() < i32::MAX,
        ensures
            final(d)@ == lower_scalar(*self, st@, cur as int, old(d)@),
            ginv(final(d)@),
            counters_le(old(d)@, final(d)@),
    {
        let v = resolve_operand(st, cur, &self.1, None);
        d.add_instr(
            TacInstruction {
                label: None,
                kind: InstructionKind::Allocation {
                    variable: Some(v),
                    size: Constant::new(4),
                },
                comment: None,
            },
        );
    }
}

impl Vector {
    /// Emits the allocation for a vector declaration: four bytes per
    /// element.
    pub fn gen(&self, st: &SymbolTable, cur: usize, d: &mut Data)
        requires
            st_wf(st@),
            cur < st@.len(),
            first_variable(visible(st@, cur as int), self.2@) is Some,
            4 * (self.1 as int) <= i32::MAX,
            ginv(old(d)@),
            old(d)@.instrs.len() < i32::MAX,
        ensures
            final(d)@ == lower_vector(*self, st@, cur as int, old(d)@),
            ginv(final(d)@),
            counters_le(old(d)@, final(d)@),
    {
        let v = resolve_operand(st, cur, &self.2, None);
        let bytes: i64 = 4i64 * (self.1 as i64);
        d.add_instr(
            TacInstruction {
                label: None,
                kind: InstructionKind::Allocation {
                    variable: Some(v),
                    size: Constant::new(bytes as i32),
                },
                comment: None,
            },
        );
    }
}

impl AstVariable {
    /// Emits the allocation for a variable declaration.
    pub fn gen(&self, st: &SymbolTable, cur: usize, d: &mut Data)
        requires
            st_wf(st@),
            cur < st@.len(),
            (match *self {
                AstVariable::Scalar(ref sc) => first_variable(
                    visible(st@, cur as int),
                    sc.1@,
                ) is Some,
                AstVariable::Vector(ref v) => first_variable(visible(st@, cur as int), v.2@)
                    is Some && 4 * (v.1 as int) <= i32::MAX,
            }),
            ginv(old(d)@),
            old(d)@.instrs.len() < i32::MAX,
        ensures
            final(d)@ == lower_variable(*self, st@, cur as int, old(d)@),
            ginv(final(d)@),
            counters_le(old(d)@, final(d)@),
    {
        match self {
            AstVariable::Scalar(sc) => sc.gen(st, cur, d),
            AstVariable::Vector(v) => v.gen(st, cur, d),
        }
    }
}

/// Emits the allocations for the local scalars in order.
pub fn gen_scalars(ss: &Vec<Scalar>, st: &SymbolTable, cur: usize, d: &mut Data)
    requires
        st_wf(st@),
        cur < st@.len(),
        forall|k: int|
            0 <= k < ss@.len() ==> first_variable(
                visible(st@, cur as int),
                (#[trigger] ss@[k]).1@,
            ) is Some,
        ginv(old(d)@),
        fits_scalars(ss@, 0, st@, cur as int, old(d)@),
    ensures
        final(d)@ == lower_scalars(ss@, 0, st@, cur as int, old(d)@),
        ginv(final(d)@),
        counters_le(old(d)@, final(d)@),
{
    let n = ss.len();
    let mut i: usize = 0;
    while i < n
        invariant
            i <= n,
            n == ss@.len(),
            st_wf(st@),
            cur < st@.len(),
            forall|k: int|
                0 <= k < ss@.len() ==> first_variable(
                    visible(st@, cur as int),
                    (#[trigger] ss@[k]).1@,
                ) is Some,
            ginv(d@),
            counters_le(old(d)@, d@),
            fits_scalars(ss@, i as int, st@, cur as int, d@),
            lower_scalars(ss@, 0, st@, cur as int, old(d)@) == lower_scalars(
                ss@,
                i as int,
                st@,
                cur as int,
                d@,
            ),
        decreases n - i,
    {
        ss[i].gen(st, cur, d);
        i = i + 1;
    }
}

impl Statement {
    /// Lowers one top-level statement. A function's locals and body are
    /// lowered inside its own child table.
    pub fn gen(&self, st: &SymbolTable, cur: usize, d: &mut Data)
        requires
            st_wf(st@),
            cur < st@.len(),
            stmt_gen_ok(*self, st@, cur as int),
            ginv(old(d)@),
            fits_stmt(*self, st@, cur as int, old(d)@),
        ensures
            final(d)@ == lower_stmt(*self, st@, cur as int, old(d)@),
            ginv(final(d)@),
            counters_le(old(d)@, final(d)@),
    {
        match self {
            Statement::DclVariable(v) => v.gen(st, cur, d),
            Statement::DclFunction(id, args, vars, body) => {
                let syms = st.iter(cur);
                let child: usize = match find_function(&syms, id) {
                    Some(i) => {
                        match syms[i].kind {
                            crate::symbol_table::SymbolKind::Function { symbol_table, .. } => {
                                symbol_table
                            },
                            _ => unreached(),
                        }
                    },
                    None => unreached(),
                };
                let mut name = "f".to_owned();
                name.append(id.as_str());
                let mut c0 = "début fonction ".to_owned();
                c0.append(id.as_str());
                d.add_instr(
                    TacInstruction {
                        label: Some(Label::new(name)),
                        kind: InstructionKind::FunctionBegin,
                        comment: Some(c0),
                    },
                );
                gen_scalars(vars, st, child, d);
                gen_instructions(body, st, child, d);
                let mut c1 = "fin fonction ".to_owned();
                c1.append(id.as_str());
                d.add_instr(
                    TacInstruction {
                        label: None,
                        kind: InstructionKind::FunctionEnd,
                        comment: Some(c1),
                    },
                );
            },
        }
    }
}

/// Lowers the statements in order.
pub fn gen_statements(ss: &Vec<Statement>, st: &SymbolTable, cur: usize, d: &mut Data)
    requires
        st_wf(st@),
        cur < st@.len(),
        forall|k: int| 0 <= k < ss@.len() ==> stmt_gen_ok(#[trigger] ss@[k], st@, cur as int),
        ginv(old(d)@),
        fits_stmts(ss@, 0, st@, cur as int, old(d)@),
    ensures
        final(d)@ == lower_stmts(ss@, 0, st@, cur as int, old(d)@),
        ginv(final(d)@),
        counters_le(old(d)@, final(d)@),
{
    let n = ss.len();
    let mut i: usize = 0;
    while i < n
        invariant
            i <= n,
            n == ss@.len(),
            st_wf(st@),
            cur < st@.len(),
            forall|k: int|
                0 <= k < ss@.len() ==> stmt_gen_ok(#[trigger] ss@[k], st@, cur as int),
            ginv(d@),
            counters_le(old(d)@, d@),
            fits_stmts(ss@, i as int, st@, cur as int, d@),
            lower_stmts(ss@, 0, st@, cur as int, old(d)@) == lower_stmts(
                ss@,
                i as int,
                st@,
                cur as int,
                d@,
            ),
        decreases n - i,
    {
        ss[i].gen(st, cur, d);
        i = i + 1;
    }
}

impl Program {
    /// Lowers the whole program against its populated symbol table. The
    /// result is exactly the mirrored lowering, and the last-use records of
    /// the result are correct: for every temp the record is the largest
    /// index of an instruction reading it, or -1 when none does.
    pub fn gen_three_address_code(&self, symbol_table: &SymbolTable, current_table: usize) -> (r:
        ThreeAddressCode)
        requires
            st_wf(symbol_table@),
            current_table < symbol_table@.len(),
            prog_gen_ok(*self, symbol_table@, current_table as int),
            fits_program(*self, symbol_table@, current_table as int),
        ensures
            ({
                let g = lower_program(*self, symbol_table@, current_table as int);
                r@.instrs == g.instrs && r@.last_uses == g.last_uses && ginv(g)
            }),
    {
        let mut d = Data::new();
        gen_statements(&self.0, symbol_table, current_table, &mut d);
        let Data { label_count: _, temp_count: _, instructions, last_uses } = d;
        ThreeAddressCode { instructions, last_uses }
    }
}

} // verus!
