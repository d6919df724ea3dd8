//! The semantic analyser: walks the tree, populates the symbol table, and
//! accumulates diagnostics. The whole walk is mirrored by spec functions over
//! the mathematical table state, and every step is proved equal to it, so the
//! analyser is a function of the tree alone.

use vstd::prelude::*;
use crate::ast::CallFunction;
use crate::ast::Expression;
use crate::ast::Instruction;
use crate::ast::LeftValue;
use crate::ast::Program;
use crate::ast::Scalar;
use crate::ast::Statement;
use crate::ast::Variable;
use crate::ast::Vector;
use crate::diagnostic::Diagnostic;
use crate::symbol_table::KindV;
use crate::symbol_table::Scope;
use crate::symbol_table::Symbol;
use crate::symbol_table::SymbolKind;
use crate::symbol_table::SymbolTable;
use crate::symbol_table::SymbolV;
use crate::symbol_table::Table;
use crate::symbol_table::TableV;
use crate::symbol_table::find_function;
use crate::symbol_table::find_variable;
use crate::symbol_table::first_function;
use crate::symbol_table::first_variable;
use crate::symbol_table::lemma_syms_view_push;
use crate::symbol_table::st_wf;
use crate::symbol_table::syms_view;
use crate::symbol_table::visible;

verus! {

/// The analysis failed: the diagnostics, at least one of them an error.
#[derive(Debug)]
pub struct Error {
    pub diagnostics: Vec<Diagnostic>,
}

/// The walk state: the growing table arena, the table being filled, the
/// diagnostics so far, and the scope and next free address of the current
/// declaration pass.
#[derive(Debug)]
pub struct Data {
    pub symbol_table: SymbolTable,
    pub current_table: usize,
    pub errors: Vec<Diagnostic>,
    pub scope: Scope,
    pub address: usize,
}

/// The mathematical form of the walk state.
pub ghost struct AnaV {
    pub tables: Seq<TableV>,
    pub current: int,
    pub errors: Seq<Diagnostic>,
    pub scope: Scope,
    pub address: int,
}

impl View for Data {
    type V = AnaV;

    open spec fn view(&self) -> AnaV {
        AnaV {
            tables: self.symbol_table@,
            current: self.current_table as int,
            errors: self.errors@,
            scope: self.scope,
            address: self.address as int,
        }
    }
}

impl AnaV {
    /// The state is sound: the arena is well-formed and the current table
    /// exists.
    pub open spec fn inv(self) -> bool {
        &&& st_wf(self.tables)
        &&& 0 <= self.current < self.tables.len()
    }

    /// The state with one more error diagnostic.
    pub open spec fn push_err(self, e: crate::diagnostic::Error) -> AnaV {
        AnaV { errors: self.errors.push(Diagnostic::Error(e)), ..self }
    }
}

/// The arena with `sym` appended to table `t`.
pub open spec fn append_sym_at(tables: Seq<TableV>, t: int, sym: SymbolV) -> Seq<TableV> {
    tables.update(
        t,
        TableV { parent: tables[t].parent, symbols: tables[t].symbols.push(sym) },
    )
}

/// The scope a data symbol lives in; a function has none.
pub open spec fn scope_of(sym: SymbolV) -> Option<Scope> {
    match sym.kind {
        KindV::Scalar { scope } => Some(scope),
        KindV::Vector { scope, .. } => Some(scope),
        KindV::Function { .. } => None,
    }
}

/// Whether an existing visible symbol blocks declaring `id` in scope `scope`.
/// At global scope any entry of the same name blocks; elsewhere a data symbol
/// of the same name blocks when it shares the scope, or when a local would
/// shadow an argument. Shadowing a global is permitted.
pub open spec fn is_conflict(sym: SymbolV, id: Seq<char>, scope: Scope) -> bool {
    sym.id == id && (scope is Global || (!sym.is_function() && (scope_of(sym) == Some(scope) || (
    scope is Local && scope_of(sym) == Some(Scope::Argument)))))
}

/// Whether a declaration of `id` conflicts with a visible symbol.
pub open spec fn already_declared_v(d: AnaV, id: Seq<char>) -> bool {
    exists|k: int|
        0 <= k < visible(d.tables, d.current).len() && is_conflict(
            visible(d.tables, d.current)[k],
            id,
            d.scope,
        )
}

/// Whether a function named `id` is already visible.
pub open spec fn function_exists_v(d: AnaV, id: Seq<char>) -> bool {
    exists|k: int|
        0 <= k < visible(d.tables, d.current).len() && (#[trigger] visible(
            d.tables,
            d.current,
        )[k]).is_function() && visible(d.tables, d.current)[k].id == id
}

/// Whether the global table holds a function named "main".
pub open spec fn has_main(tables: Seq<TableV>) -> bool {
    exists|k: int|
        0 <= k < tables[0].symbols.len() && (#[trigger] tables[0].symbols[k]).is_function()
            && tables[0].symbols[k].id == "main"@
}

/// The walk of one scalar declaration.
pub open spec fn ana_scalar(s: Scalar, d: AnaV) -> AnaV {
    if already_declared_v(d, s.1@) {
        d.push_err(crate::diagnostic::Error::AlreadyDeclared)
    } else {
        AnaV {
            tables: append_sym_at(
                d.tables,
                d.current,
                SymbolV { id: s.1@, address: d.address, kind: KindV::Scalar { scope: d.scope } },
            ),
            address: d.address + 4,
            ..d
        }
    }
}

/// The walk of one vector declaration.
pub open spec fn ana_vector(v: Vector, d: AnaV) -> AnaV {
    if already_declared_v(d, v.2@) {
        d.push_err(crate::diagnostic::Error::AlreadyDeclared)
    } else {
        AnaV {
            tables: append_sym_at(
                d.tables,
                d.current,
                SymbolV {
                    id: v.2@,
                    address: d.address,
                    kind: KindV::Vector { scope: d.scope, size: v.1 as int },
                },
            ),
            address: d.address + 4 * (v.1 as int),
            ..d
        }
    }
}

/// The walk of one variable declaration.
pub open spec fn ana_variable(v: Variable, d: AnaV) -> AnaV {
    match v {
        Variable::Scalar(s) => ana_scalar(s, d),
        Variable::Vector(w) => ana_vector(w, d),
    }
}

/// The walk of the scalar declarations from position `i` on.
pub open spec fn ana_scalars(ss: Seq<Scalar>, i: int, d: AnaV) -> AnaV
    decreases ss, ss.len() - i,
{
    if i < 0 || i >= ss.len() {
        d
    } else {
        ana_scalars(ss, i + 1, ana_scalar(ss[i], d))
    }
}

/// The walk of one top-level statement.
pub open spec fn ana_stmt(s: Statement, d: AnaV) -> AnaV {
    match s {
        Statement::DclVariable(v) => ana_variable(v, d),
        Statement::DclFunction(id, args, vars, body) => {
            if function_exists_v(d, id@) {
                d.push_err(crate::diagnostic::Error::AlreadyDeclared)
            } else {
                let t = d.tables.len() as int;
                let grown = d.tables + seq![
                    TableV { parent: Some(d.current), symbols: Seq::<SymbolV>::empty() },
                ];
                let with_fun = append_sym_at(
                    grown,
                    d.current,
                    SymbolV {
                        id: id@,
                        address: 0,
                        kind: KindV::Function {
                            nb_arguments: args@.len() as int,
                            symbol_table: t,
                        },
                    },
                );
                let d1 = AnaV {
                    tables: with_fun,
                    current: t,
                    errors: d.errors,
                    scope: Scope::Argument,
                    address: 0,
                };
                let d2 = ana_scalars(args@, 0, d1);
                let d3 = ana_scalars(vars@, 0, AnaV { scope: Scope::Local, address: 0, ..d2 });
                let d4 = ana_instrs(body@, 0, d3);
                AnaV { current: d.current, ..d4 }
            }
        },
    }
}

/// The walk of the statements from position `i` on.
pub open spec fn ana_stmts(ss: Seq<Statement>, i: int, d: AnaV) -> AnaV
    decreases ss.len() - i,
{
    if i < 0 || i >= ss.len() {
        d
    } else {
        ana_stmts(ss, i + 1, ana_stmt(ss[i], d))
    }
}

/// The walk of one instruction: it only reads the tables and may add
/// diagnostics.
pub open spec fn ana_instr(ins: Instruction, d: AnaV) -> AnaV
    decreases ins, 0int,
{
    match ins {
        Instruction::Affectation(lv, e) => ana_expr(e, ana_lv(lv, d)),
        Instruction::CallFunction(c) => ana_call(c, d),
        Instruction::Return(e) => ana_expr(e, d),
        Instruction::If(e, i1, i2) => ana_instrs(i2@, 0, ana_instrs(i1@, 0, ana_expr(e, d))),
        Instruction::While(e, i) => ana_instrs(i@, 0, ana_expr(e, d)),
        Instruction::WriteFunction(e) => ana_expr(e, d),
        Instruction::NOP => d,
    }
}

/// The walk of the instructions from position `i` on.
pub open spec fn ana_instrs(ii: Seq<Instruction>, i: int, d: AnaV) -> AnaV
    decreases ii, ii.len() - i,
{
    if i < 0 || i >= ii.len() {
        d
    } else {
        ana_instrs(ii, i + 1, ana_instr(ii[i], d))
    }
}

/// The walk of one expression.
pub open spec fn ana_expr(e: Expression, d: AnaV) -> AnaV
    decreases e, 0int,
{
    match e {
        Expression::Value(_) => d,
        Expression::LeftValue(lv) => ana_lv(lv, d),
        Expression::CallFunction(c) => ana_call(c, d),
        Expression::ReadFunction => d,
        Expression::UnaryOperation(_, e1) => ana_expr(*e1, d),
        Expression::BinaryOperation(_, e1, e2) => ana_expr(*e2, ana_expr(*e1, d)),
    }
}

/// The walk of the expressions from position `i` on.
pub open spec fn ana_exprs(es: Seq<Expression>, i: int, d: AnaV) -> AnaV
    decreases es, es.len() - i,
{
    if i < 0 || i >= es.len() {
        d
    } else {
        ana_exprs(es, i + 1, ana_expr(es[i], d))
    }
}

/// The walk of a left-value use: a bare identifier must name a visible
/// scalar, an indexed one a visible vector.
pub open spec fn ana_lv(lv: LeftValue, d: AnaV) -> AnaV
    decreases lv, 0int,
{
    match lv {
        LeftValue::Variable(id) => {
            match first_variable(visible(d.tables, d.current), id@) {
                Some(sym) => if sym.kind is Scalar {
                    d
                } else {
                    d.push_err(crate::diagnostic::Error::VectorWithoutIndice)
                },
                None => d.push_err(crate::diagnostic::Error::Undeclared),
            }
        },
        LeftValue::VariableAt(id, e) => {
            let d1 = ana_expr(*e, d);
            match first_variable(visible(d1.tables, d1.current), id@) {
                Some(sym) => if sym.kind is Scalar {
                    d1.push_err(crate::diagnostic::Error::ScalarWithIndice)
                } else {
                    d1
                },
                None => d1.push_err(crate::diagnostic::Error::Undeclared),
            }
        },
    }
}

/// The walk of a call: the identifier must name a visible function of the
/// right arity; every argument is walked.
pub open spec fn ana_call(c: CallFunction, d: AnaV) -> AnaV
    decreases c, 1int,
{
    let d1 = match first_function(visible(d.tables, d.current), c.0@) {
        Some(sym) => if sym.kind matches KindV::Function { nb_arguments, .. } && nb_arguments
            != c.1@.len() {
            d.push_err(crate::diagnostic::Error::InvalidFunctionArguments)
        } else {
            d
        },
        None => d.push_err(crate::diagnostic::Error::Undeclared),
    };
    ana_exprs(c.1@, 0, d1)
}

/// The walk of a whole program, ending with the check that `main` exists.
pub open spec fn ana_program(p: Program, d: AnaV) -> AnaV {
    let d1 = ana_stmts(p.0@, 0, d);
    if has_main(d1.tables) {
        d1
    } else {
        d1.push_err(crate::diagnostic::Error::MainUndeclared)
    }
}

/// The state every analysis starts from: one empty global table.
pub open spec fn init_ana() -> AnaV {
    AnaV {
        tables: seq![TableV { parent: None, symbols: Seq::<SymbolV>::empty() }],
        current: 0,
        errors: Seq::empty(),
        scope: Scope::Global,
        address: 0,
    }
}

/// What analysing the program computes.
pub open spec fn analyse_result(p: Program) -> AnaV {
    ana_program(p, init_ana())
}

/// The machine bound a scalar declaration needs: the address counter stays a
/// `usize`.
pub open spec fn scalar_fits(s: Scalar, d: AnaV) -> bool {
    already_declared_v(d, s.1@) || d.address + 4 <= usize::MAX
}

/// The machine bound a vector declaration needs.
pub open spec fn vector_fits(v: Vector, d: AnaV) -> bool {
    already_declared_v(d, v.2@) || d.address + 4 * (v.1 as int) <= usize::MAX
}

pub open spec fn variable_fits(v: Variable, d: AnaV) -> bool {
    match v {
        Variable::Scalar(s) => scalar_fits(s, d),
        Variable::Vector(w) => vector_fits(w, d),
    }
}

pub open spec fn scalars_fit(ss: Seq<Scalar>, i: int, d: AnaV) -> bool
    decreases ss.len() - i,
{
    if i < 0 || i >= ss.len() {
        true
    } else {
        scalar_fits(ss[i], d) && scalars_fit(ss, i + 1, ana_scalar(ss[i], d))
    }
}

pub open spec fn stmt_fits(s: Statement, d: AnaV) -> bool {
    match s {
        Statement::DclVariable(v) => variable_fits(v, d),
        Statement::DclFunction(id, args, vars, body) => {
            if function_exists_v(d, id@) {
                true
            } else {
                let t = d.tables.len() as int;
                let grown = d.tables + seq![
                    TableV { parent: Some(d.current), symbols: Seq::<SymbolV>::empty() },
                ];
                let with_fun = append_sym_at(
                    grown,
                    d.current,
                    SymbolV {
                        id: id@,
                        address: 0,
                        kind: KindV::Function {
                            nb_arguments: args@.len() as int,
                            symbol_table: t,
                        },
                    },
                );
                let d1 = AnaV {
                    tables: with_fun,
                    current: t,
                    errors: d.errors,
                    scope: Scope::Argument,
                    address: 0,
                };
                let d2 = ana_scalars(args@, 0, d1);
                scalars_fit(args@, 0, d1) && scalars_fit(
                    vars@,
                    0,
                    AnaV { scope: Scope::Local, address: 0, ..d2 },
                )
            }
        },
    }
}

pub open spec fn stmts_fit(ss: Seq<Statement>, i: int, d: AnaV) -> bool
    decreases ss.len() - i,
{
    if i < 0 || i >= ss.len() {
        true
    } else {
        stmt_fits(ss[i], d) && stmts_fit(ss, i + 1, ana_stmt(ss[i], d))
    }
}

/// The machine bound the whole analysis needs: every address the walk
/// assigns stays a `usize`. Any real program meets it.
pub open spec fn program_fits(p: Program) -> bool {
    stmts_fit(p.0@, 0, init_ana())
}

impl Data {
    /// A fresh walk state over a fresh symbol table.
    pub fn new() -> (r: Data)
        ensures
            r@ == init_ana(),
            r@.inv(),
    {
        let r = Data {
            symbol_table: SymbolTable::new(),
            current_table: 0,
            errors: Vec::new(),
            scope: Scope::Global,
            address: 0,
        };
        proof {
            assert(r@.tables =~= init_ana().tables);
            assert(r@.errors =~= init_ana().errors);
        }
        r
    }

    /// The table currently being filled.
    pub fn table(&self) -> (r: &Table)
        requires
            self@.inv(),
        ensures
            r@ == self@.tables[self@.current],
    {
        &self.symbol_table.tables[self.current_table]
    }

    /// Appends a symbol to the current table.
    fn push_symbol(&mut self, sym: Symbol)
        requires
            old(self)@.inv(),
        ensures
            final(self)@ == (AnaV {
                tables: append_sym_at(old(self)@.tables, old(self)@.current, sym@),
                ..old(self)@
            }),
            final(self)@.inv(),
    {
        let ghost svx = sym@;
        let t = self.current_table;
        self.symbol_table.tables[t].symbols.push(sym);
        proof {
            let oldt = old(self)@.tables;
            let newt = final(self)@.tables;
            let ti = t as int;
            lemma_syms_view_push(old(self).symbol_table.tables@[ti].symbols@, sym);
            assert(newt =~= append_sym_at(oldt, ti, svx)) by {
                assert forall|i: int| 0 <= i < newt.len() implies newt[i] == append_sym_at(
                    oldt,
                    ti,
                    svx,
                )[i] by {
                    if i != ti {
                        assert(final(self).symbol_table.tables@[i]
                            == old(self).symbol_table.tables@[i]);
                    }
                }
            }
            assert(st_wf(newt)) by {
                assert forall|i: int|
                    1 <= i < newt.len() implies #[trigger] newt[i].parent is Some && 0
                    <= newt[i].parent->0 < i by {
                    assert(newt[i].parent == oldt[i].parent);
                }
                assert(newt[0].parent == oldt[0].parent);
            }
        }
    }

    /// Whether a declaration of `id` would conflict with a visible symbol.
    fn already_declared_variable(&self, id: &String) -> (r: bool)
        requires
            self@.inv(),
        ensures
            r == already_declared_v(self@, id@),
    {
        let syms = self.symbol_table.iter(self.current_table);
        let ghost vis = visible(self@.tables, self@.current);
        let n = syms.len();
        let mut k: usize = 0;
        while k < n
            invariant
                k <= n,
                n == syms@.len(),
                syms_view(syms@) == vis,
                vis == visible(self@.tables, self@.current),
                forall|m: int| 0 <= m < k ==> !is_conflict(vis[m], id@, self@.scope),
            decreases n - k,
        {
            let s = &syms[k];
            proof {
                assert(vis[k as int] == syms@[k as int]@);
            }
            let same_id = s.id == *id;
            let hit = if !same_id {
                false
            } else if self.scope == Scope::Global {
                true
            } else {
                match &s.kind {
                    SymbolKind::Function { .. } => false,
                    SymbolKind::Scalar { scope } => *scope == self.scope || (self.scope
                        == Scope::Local && *scope == Scope::Argument),
                    SymbolKind::Vector { scope, .. } => *scope == self.scope || (self.scope
                        == Scope::Local && *scope == Scope::Argument),
                }
            };
            if hit {
                proof {
                    assert(is_conflict(vis[k as int], id@, self@.scope));
                }
                return true;
            }
            proof {
                assert(!is_conflict(vis[k as int], id@, self@.scope));
            }
            k = k + 1;
        }
        false
    }

    /// Whether a function named `id` is visible.
    fn function_declared(&self, id: &String) -> (r: bool)
        requires
            self@.inv(),
        ensures
            r == function_exists_v(self@, id@),
    {
        let syms = self.symbol_table.iter(self.current_table);
        let ghost vis = visible(self@.tables, self@.current);
        let n = syms.len();
        let mut k: usize = 0;
        while k < n
            invariant
                k <= n,
                n == syms@.len(),
                syms_view(syms@) == vis,
                vis == visible(self@.tables, self@.current),
                forall|m: int|
                    0 <= m < k ==> !((#[trigger] vis[m]).is_function() && vis[m].id == id@),
            decreases n - k,
        {
            let s = &syms[k];
            proof {
                assert(vis[k as int] == syms@[k as int]@);
            }
            if s.is_function() && s.id == *id {
                return true;
            }
            k = k + 1;
        }
        false
    }

}

impl Scalar {
    /// Declares the scalar in the current table, or flags the conflict.
    pub fn analyse(&self, d: &mut Data)
        requires
            old(d)@.inv(),
            scalar_fits(*self, old(d)@),
        ensures
            final(d)@ == ana_scalar(*self, old(d)@),
            final(d)@.inv(),
            final(d)@.tables.len() >= old(d)@.tables.len(),
    {
        if d.already_declared_variable(&self.1) {
            d.errors.push(Diagnostic::Error(crate::diagnostic::Error::AlreadyDeclared));
            return ;
        }
        let sym = Symbol {
            id: self.1.clone(),
            address: d.address,
            kind: SymbolKind::Scalar { scope: d.scope },
        };
        d.push_symbol(sym);
        d.address = d.address + 4;
    }
}

impl Vector {
    /// Declares the vector in the current table, or flags the conflict.
    pub fn analyse(&self, d: &mut Data)
        requires
            old(d)@.inv(),
            vector_fits(*self, old(d)@),
        ensures
            final(d)@ == ana_vector(*self, old(d)@),
            final(d)@.inv(),
            final(d)@.tables.len() >= old(d)@.tables.len(),
    {
        if d.already_declared_variable(&self.2) {
            d.errors.push(Diagnostic::Error(crate::diagnostic::Error::AlreadyDeclared));
            return ;
        }
        let sym = Symbol {
            id: self.2.clone(),
            address: d.address,
            kind: SymbolKind::Vector { scope: d.scope, size: self.1 },
        };
        d.push_symbol(sym);
        let bytes: usize = 4 * (self.1 as usize);
        d.address = d.address + bytes;
    }
}

impl Variable {
    /// Declares the variable in the current table, or flags the conflict.
    pub fn analyse(&self, d: &mut Data)
        requires
            old(d)@.inv(),
            variable_fits(*self, old(d)@),
        ensures
            final(d)@ == ana_variable(*self, old(d)@),
            final(d)@.inv(),
            final(d)@.tables.len() >= old(d)@.tables.len(),
    {
        match self {
            Variable::Scalar(s) => s.analyse(d),
            Variable::Vector(v) => v.analyse(d),
        }
    }
}

/// Walks the scalar declarations in order.
pub fn analyse_scalars(ss: &Vec<Scalar>, d: &mut Data)
    requires
        old(d)@.inv(),
        scalars_fit(ss@, 0, old(d)@),
    ensures
        final(d)@ == ana_scalars(ss@, 0, old(d)@),
        final(d)@.inv(),
        final(d)@.tables.len() >= old(d)@.tables.len(),
{
    let n = ss.len();
    let mut i: usize = 0;
    while i < n
        invariant
            i <= n,
            n == ss@.len(),
            d@.inv(),
            d@.tables.len() >= old(d)@.tables.len(),
            scalars_fit(ss@, i as int, d@),
            ana_scalars(ss@, 0, old(d)@) == ana_scalars(ss@, i as int, d@),
        decreases n - i,
    {
        ss[i].analyse(d);
        i = i + 1;
    }
}

impl Statement {
    /// Walks one top-level statement.
    pub fn analyse(&self, d: &mut Data)
        requires
            old(d)@.inv(),
            stmt_fits(*self, old(d)@),
        ensures
            final(d)@ == ana_stmt(*self, old(d)@),
            final(d)@.inv(),
            final(d)@.tables.len() >= old(d)@.tables.len(),
    {
        match self {
            Statement::DclVariable(v) => v.analyse(d),
            Statement::DclFunction(id, args, vars, body) => {
                if d.function_declared(id) {
                    d.errors.push(Diagnostic::Error(crate::diagnostic::Error::AlreadyDeclared));
                    return ;
                }
                let saved = d.current_table;
                let table = d.symbol_table.new_table(Some(saved));
                proof {
                    assert(st_wf(d@.tables)) by {
                        let newt = d@.tables;
                        let oldt = old(d)@.tables;
                        assert forall|i: int|
                            1 <= i < newt.len() implies #[trigger] newt[i].parent is Some && 0
                            <= newt[i].parent->0 < i by {
                            if i < oldt.len() {
                                assert(newt[i] == oldt[i]);
                            }
                        }
                        assert(newt[0] == oldt[0]);
                    }
                }
                let sym = Symbol {
                    id: id.clone(),
                    address: 0,
                    kind: SymbolKind::Function { nb_arguments: args.len(), symbol_table: table },
                };
                d.push_symbol(sym);
                d.current_table = table;
                d.scope = Scope::Argument;
                d.address = 0;
                analyse_scalars(args, d);
                d.scope = Scope::Local;
                d.address = 0;
                analyse_scalars(vars, d);
                analyse_instructions(body, d);
                d.current_table = saved;
                proof {
                    assert(final(d)@ == ana_stmt(*self, old(d)@));
                }
            },
        }
    }
}

/// Walks the statements in order.
pub fn analyse_statements(ss: &Vec<Statement>, d: &mut Data)
    requires
        old(d)@.inv(),
        stmts_fit(ss@, 0, old(d)@),
    ensures
        final(d)@ == ana_stmts(ss@, 0, old(d)@),
        final(d)@.inv(),
        final(d)@.tables.len() >= old(d)@.tables.len(),
{
    let n = ss.len();
    let mut i: usize = 0;
    while i < n
        invariant
            i <= n,
            n == ss@.len(),
            d@.inv(),
            d@.tables.len() >= old(d)@.tables.len(),
            stmts_fit(ss@, i as int, d@),
            ana_stmts(ss@, 0, old(d)@) == ana_stmts(ss@, i as int, d@),
        decreases n - i,
    {
        ss[i].analyse(d);
        i = i + 1;
    }
}

impl Instruction {
    /// Walks one instruction.
    pub fn analyse(&self, d: &mut Data)
        requires
            old(d)@.inv(),
        ensures
            final(d)@ == ana_instr(*self, old(d)@),
            final(d)@.inv(),
            final(d)@.tables.len() >= old(d)@.tables.len(),
        decreases *self,
    {
        match self {
            Instruction::Affectation(lv, e) => {
                lv.analyse(d);
                e.analyse(d);
            },
            Instruction::CallFunction(c) => {
                c.analyse(d);
            },
            Instruction::Return(e) => {
                e.analyse(d);
            },
            Instruction::If(e, i1, i2) => {
                e.analyse(d);
                analyse_instructions(i1, d);
                analyse_instructions(i2, d);
            },
            Instruction::While(e, i) => {
                e.analyse(d);
                analyse_instructions(i, d);
            },
            Instruction::WriteFunction(e) => {
                e.analyse(d);
            },
            Instruction::NOP => {},
        }
    }
}

/// Walks the instructions in order.
pub fn analyse_instructions(ii: &Vec<Instruction>, d: &mut Data)
    requires
        old(d)@.inv(),
    ensures
        final(d)@ == ana_instrs(ii@, 0, old(d)@),
        final(d)@.inv(),
        final(d)@.tables.len() >= old(d)@.tables.len(),
    decreases ii@,
{
    let n = ii.len();
    let mut i: usize = 0;
    while i < n
        invariant
            i <= n,
            n == ii@.len(),
            d@.inv(),
            d@.tables.len() >= old(d)@.tables.len(),
            ana_instrs(ii@, 0, old(d)@) == ana_instrs(ii@, i as int, d@),
        decreases n - i,
    {
        ii[i].analyse(d);
        i = i + 1;
    }
}

impl Expression {
    /// Walks one expression.
    pub fn analyse(&self, d: &mut Data)
        requires
            old(d)@.inv(),
        ensures
            final(d)@ == ana_expr(*self, old(d)@),
            final(d)@.inv(),
            final(d)@.tables.len() >= old(d)@.tables.len(),
        decreases *self,
    {
        match self {
            Expression::Value(_) => {},
            Expression::LeftValue(lv) => {
                lv.analyse(d);
            },
            Expression::CallFunction(c) => {
                c.analyse(d);
            },
            Expression::ReadFunction => {},
            Expression::UnaryOperation(_, e1) => {
                e1.analyse(d);
            },
            Expression::BinaryOperation(_, e1, e2) => {
                e1.analyse(d);
                e2.analyse(d);
            },
        }
    }
}

/// Walks the expressions in order.
pub fn analyse_expressions(es: &Vec<Expression>, d: &mut Data)
    requires
        old(d)@.inv(),
    ensures
        final(d)@ == ana_exprs(es@, 0, old(d)@),
        final(d)@.inv(),
        final(d)@.tables.len() >= old(d)@.tables.len(),
    decreases es@,
{
    let n = es.len();
    let mut i: usize = 0;
    while i < n
        invariant
            i <= n,
            n == es@.len(),
            d@.inv(),
            d@.tables.len() >= old(d)@.tables.len(),
            ana_exprs(es@, 0, old(d)@) == ana_exprs(es@, i as int, d@),
        decreases n - i,
    {
        es[i].analyse(d);
        i = i + 1;
    }
}

impl LeftValue {
    /// Walks a left-value use.
    pub fn analyse(&self, d: &mut Data)
        requires
            old(d)@.inv(),
        ensures
            final(d)@ == ana_lv(*self, old(d)@),
            final(d)@.inv(),
            final(d)@.tables.len() >= old(d)@.tables.len(),
        decreases *self,
    {
        match self {
            LeftValue::Variable(id) => {
                let syms = d.symbol_table.iter(d.current_table);
                match find_variable(&syms, id) {
                    Some(i) => {
                        match syms[i].kind {
                            SymbolKind::Scalar { .. } => {},
                            _ => {
                                d.errors.push(
                                    Diagnostic::Error(
                                        crate::diagnostic::Error::VectorWithoutIndice,
                                    ),
                                );
                            },
                        }
                    },
                    None => {
                        d.errors.push(Diagnostic::Error(crate::diagnostic::Error::Undeclared));
                    },
                }
            },
            LeftValue::VariableAt(id, e) => {
                e.analyse(d);
                let syms = d.symbol_table.iter(d.current_table);
                match find_variable(&syms, id) {
                    Some(i) => {
                        match syms[i].kind {
                            SymbolKind::Scalar { .. } => {
                                d.errors.push(
                                    Diagnostic::Error(crate::diagnostic::Error::ScalarWithIndice),
                                );
                            },
                            _ => {},
                        }
                    },
                    None => {
                        d.errors.push(Diagnostic::Error(crate::diagnostic::Error::Undeclared));
                    },
                }
            },
        }
    }
}

impl CallFunction {
    /// Walks a call.
    pub fn analyse(&self, d: &mut Data)
        requires
            old(d)@.inv(),
        ensures
            final(d)@ == ana_call(*self, old(d)@),
            final(d)@.inv(),
            final(d)@.tables.len() >= old(d)@.tables.len(),
        decreases *self,
    {
        let syms = d.symbol_table.iter(d.current_table);
        match find_function(&syms, &self.0) {
            Some(i) => {
                match syms[i].kind {
                    SymbolKind::Function { nb_arguments, .. } => {
                        if nb_arguments != self.1.len() {
                            d.errors.push(
                                Diagnostic::Error(
                                    crate::diagnostic::Error::InvalidFunctionArguments,
                                ),
                            );
                        }
                    },
                    _ => {},
                }
            },
            None => {
                d.errors.push(Diagnostic::Error(crate::diagnostic::Error::Undeclared));
            },
        }
        analyse_expressions(&self.1, d);
    }
}

impl Program {
    /// Analyses the program: builds the symbol table, checks that `main`
    /// exists, and returns the table, or every diagnostic when an error was
    /// found.
    pub fn analyse(&self) -> (r: Result<SymbolTable, Error>)
        requires
            program_fits(*self),
        ensures
            match r {
                Ok(st) => analyse_result(*self).errors.len() == 0 && st@ == analyse_result(
                    *self,
                ).tables && st_wf(st@),
                Err(e) => analyse_result(*self).errors.len() > 0 && e.diagnostics@
                    == analyse_result(*self).errors,
            },
    {
        let mut d = Data::new();
        analyse_statements(&self.0, &mut d);
        let main_name = "main".to_owned();
        let main_exists = d.function_in_global(&main_name);
        if !main_exists {
            d.errors.push(Diagnostic::Error(crate::diagnostic::Error::MainUndeclared));
        }
        proof {
            assert(d@.tables == analyse_result(*self).tables);
            assert(d@.errors == analyse_result(*self).errors);
        }
        if d.errors.len() == 0 {
            Ok(d.symbol_table)
        } else {
            Err(Error { diagnostics: d.errors })
        }
    }
}

impl Data {
    /// Whether the global table holds a function with the given name.
    fn function_in_global(&self, name: &String) -> (r: bool)
        requires
            self@.inv(),
        ensures
            r == exists|k: int|
                0 <= k < self@.tables[0].symbols.len()
                    && (#[trigger] self@.tables[0].symbols[k]).is_function()
                    && self@.tables[0].symbols[k].id == name@,
    {
        let g = self.global_symbols_len();
        let mut k: usize = 0;
        while k < g
            invariant
                k <= g,
                self@.inv(),
                g == self@.tables[0].symbols.len(),
                forall|m: int|
                    0 <= m < k ==> !((#[trigger] self@.tables[0].symbols[m]).is_function()
                        && self@.tables[0].symbols[m].id == name@),
            decreases g - k,
        {
            let s = &self.symbol_table.tables[0].symbols[k];
            proof {
                assert(self@.tables[0].symbols[k as int] == s@);
            }
            if s.is_function() && s.id == *name {
                return true;
            }
            k = k + 1;
        }
        false
    }

    /// How many symbols the global table holds.
    fn global_symbols_len(&self) -> (r: usize)
        requires
            self@.inv(),
        ensures
            r == self@.tables[0].symbols.len(),
    {
        let r = self.symbol_table.tables[0].symbols.len();
        proof {
            assert(self@.tables[0].symbols.len() == self.symbol_table.tables@[0].symbols@.len());
        }
        r
    }
}

} // verus!
