//! The scoped symbol table: a forest of tables held in an arena indexed by
//! integer. Table 0 is the global table; each function owns one child table.
//! A lookup from a table walks its own symbols in reverse declaration order,
//! then its ancestors', so the nearest declaration wins.

use vstd::prelude::*;

verus! {

/// Where a symbol lives; decides the addressing base in the back end.
#[derive(Debug, Copy, Clone, PartialEq, Eq, Structural)]
pub enum Scope {
    Global,
    Local,
    Argument,
}

#[derive(Debug, Copy, Clone, PartialEq, Eq, Structural)]
pub enum SymbolKind {
    Scalar { scope: Scope },
    Vector { scope: Scope, size: u32 },
    Function { nb_arguments: usize, symbol_table: usize },
}

/// One entry of a table: identifier, per-scope byte address, and kind.
#[derive(Debug)]
pub struct Symbol {
    pub id: String,
    pub address: usize,
    pub kind: SymbolKind,
}

/// One scope's table: its parent in the arena and its symbols in declaration
/// order.
#[derive(Debug)]
pub struct Table {
    pub parent: Option<usize>,
    pub symbols: Vec<Symbol>,
}

/// The arena of tables.
#[derive(Debug)]
pub struct SymbolTable {
    pub tables: Vec<Table>,
}

/// The mathematical form of a symbol kind: counts freed from machine widths.
pub ghost enum KindV {
    Scalar { scope: Scope },
    Vector { scope: Scope, size: int },
    Function { nb_arguments: int, symbol_table: int },
}

/// The mathematical form of a symbol.
pub ghost struct SymbolV {
    pub id: Seq<char>,
    pub address: int,
    pub kind: KindV,
}

/// The mathematical form of a table.
pub ghost struct TableV {
    pub parent: Option<int>,
    pub symbols: Seq<SymbolV>,
}

impl View for SymbolKind {
    type V = KindV;

    open spec fn view(&self) -> KindV {
        match *self {
            SymbolKind::Scalar { scope } => KindV::Scalar { scope },
            SymbolKind::Vector { scope, size } => KindV::Vector { scope, size: size as int },
            SymbolKind::Function { nb_arguments, symbol_table } => KindV::Function {
                nb_arguments: nb_arguments as int,
                symbol_table: symbol_table as int,
            },
        }
    }
}

impl View for Symbol {
    type V = SymbolV;

    open spec fn view(&self) -> SymbolV {
        SymbolV { id: self.id@, address: self.address as int, kind: self.kind@ }
    }
}

/// The sequence of symbol views of a vector of symbols.
pub open spec fn syms_view(s: Seq<Symbol>) -> Seq<SymbolV> {
    s.map_values(|x: Symbol| x@)
}

impl View for Table {
    type V = TableV;

    open spec fn view(&self) -> TableV {
        TableV {
            parent: match self.parent {
                Some(p) => Some(p as int),
                None => None,
            },
            symbols: syms_view(self.symbols@),
        }
    }
}

impl View for SymbolTable {
    type V = Seq<TableV>;

    open spec fn view(&self) -> Seq<TableV> {
        self.tables@.map_values(|t: Table| t@)
    }
}

impl SymbolV {
    /// Whether the symbol names a function.
    pub open spec fn is_function(self) -> bool {
        self.kind is Function
    }
}

/// A well-formed arena: table 0 is the one root, and every other table's
/// parent stands before it.
pub open spec fn st_wf(tables: Seq<TableV>) -> bool {
    &&& tables.len() >= 1
    &&& tables[0].parent is None
    &&& forall|i: int|
        1 <= i < tables.len() ==> #[trigger] tables[i].parent is Some && 0 <= tables[i].parent->0
            < i
}

/// A sequence read back to front.
pub open spec fn rev_syms(s: Seq<SymbolV>) -> Seq<SymbolV> {
    Seq::new(s.len(), |i: int| s[s.len() - 1 - i])
}

/// Every symbol visible from table `from`, nearest scope first: the table's
/// own symbols in reverse declaration order, then its ancestors'.
pub open spec fn visible(tables: Seq<TableV>, from: int) -> Seq<SymbolV>
    recommends
        st_wf(tables),
        0 <= from < tables.len(),
    decreases from,
{
    let own = rev_syms(tables[from].symbols);
    match tables[from].parent {
        Some(p) => if 0 <= p < from {
            own + visible(tables, p)
        } else {
            own
        },
        None => own,
    }
}

/// The first non-function symbol with the given identifier, if any.
pub open spec fn first_variable(syms: Seq<SymbolV>, id: Seq<char>) -> Option<SymbolV>
    decreases syms.len(),
{
    if syms.len() == 0 {
        None
    } else if !syms.first().is_function() && syms.first().id == id {
        Some(syms.first())
    } else {
        first_variable(syms.drop_first(), id)
    }
}

/// The first function symbol with the given identifier, if any.
pub open spec fn first_function(syms: Seq<SymbolV>, id: Seq<char>) -> Option<SymbolV>
    decreases syms.len(),
{
    if syms.len() == 0 {
        None
    } else if syms.first().is_function() && syms.first().id == id {
        Some(syms.first())
    } else {
        first_function(syms.drop_first(), id)
    }
}

/// Viewing a vector of symbols commutes with appending one.
pub proof fn lemma_syms_view_push(s: Seq<Symbol>, x: Symbol)
    ensures
        syms_view(s.push(x)) == syms_view(s).push(x@),
{
    assert(syms_view(s.push(x)) =~= syms_view(s).push(x@));
}

impl Clone for Symbol {
    /// An exact copy.
    fn clone(&self) -> (r: Self)
        ensures
            r@ == self@,
    {
        Symbol { id: self.id.clone(), address: self.address, kind: self.kind }
    }
}

impl Symbol {
    /// Whether the symbol names a function.
    pub fn is_function(&self) -> (r: bool)
        ensures
            r == self@.is_function(),
    {
        match self.kind {
            SymbolKind::Function { .. } => true,
            _ => false,
        }
    }
}

impl Table {
    /// An empty root table.
    pub fn new() -> (r: Self)
        ensures
            r@ == (TableV { parent: None, symbols: Seq::<SymbolV>::empty() }),
    {
        let r = Table { parent: None, symbols: Vec::new() };
        proof {
            assert(syms_view(r.symbols@) =~= Seq::<SymbolV>::empty());
        }
        r
    }

    /// An empty table under the given parent.
    pub fn with_parent(parent: usize) -> (r: Self)
        ensures
            r@ == (TableV { parent: Some(parent as int), symbols: Seq::<SymbolV>::empty() }),
    {
        let r = Table { parent: Some(parent), symbols: Vec::new() };
        proof {
            assert(syms_view(r.symbols@) =~= Seq::<SymbolV>::empty());
        }
        r
    }
}

impl SymbolTable {
    /// A fresh arena holding only the empty global table.
    pub fn new() -> (r: Self)
        ensures
            r@ =~= seq![TableV { parent: None, symbols: Seq::<SymbolV>::empty() }],
            st_wf(r@),
    {
        let mut tables: Vec<Table> = Vec::new();
        tables.push(Table::new());
        SymbolTable { tables }
    }

    /// The global table.
    pub fn global(&self) -> (r: &Table)
        requires
            self@.len() >= 1,
        ensures
            r@ == self@[0],
    {
        &self.tables[0]
    }

    /// Allocates a new empty table with the given parent and returns its
    /// index.
    pub fn new_table(&mut self, parent: Option<usize>) -> (r: usize)
        ensures
            r == old(self)@.len(),
            final(self)@ =~= old(self)@ + seq![
                TableV {
                    parent: match parent {
                        Some(p) => Some(p as int),
                        None => None,
                    },
                    symbols: Seq::<SymbolV>::empty(),
                },
            ],
    {
        let r = self.tables.len();
        let t = match parent {
            Some(p) => Table::with_parent(p),
            None => Table::new(),
        };
        self.tables.push(t);
        proof {
            assert(final(self)@ =~= old(self)@ + seq![final(self).tables@.last()@]);
        }
        r
    }

    /// Every symbol visible from table `from`, nearest scope first.
    pub fn iter(&self, from: usize) -> (r: Vec<Symbol>)
        requires
            st_wf(self@),
            from < self@.len(),
        ensures
            syms_view(r@) == visible(self@, from as int),
    {
        let mut r: Vec<Symbol> = Vec::new();
        proof {
            assert(syms_view(r@) =~= Seq::<SymbolV>::empty());
        }
        self.append_visible(from, &mut r);
        proof {
            assert(Seq::<SymbolV>::empty() + visible(self@, from as int) =~= visible(
                self@,
                from as int,
            ));
        }
        r
    }

    /// Appends every symbol visible from table `from` to `r`.
    fn append_visible(&self, from: usize, r: &mut Vec<Symbol>)
        requires
            st_wf(self@),
            from < self@.len(),
        ensures
            syms_view(final(r)@) == syms_view(old(r)@) + visible(self@, from as int),
        decreases from,
    {
        let t = &self.tables[from];
        let ghost own = rev_syms(t@.symbols);
        let mut j = t.symbols.len();
        while j > 0
            invariant
                j <= t.symbols@.len(),
                from < self@.len(),
                t@ == self@[from as int],
                own == rev_syms(t@.symbols),
                syms_view(r@) =~= syms_view(old(r)@) + own.take(
                    t.symbols@.len() - j,
                ),
            decreases j,
        {
            j = j - 1;
            let ghost prev = r@;
            let s = t.symbols[j].clone();
            let ghost sx = s@;
            r.push(s);
            proof {
                let n = t.symbols@.len() as int;
                let sv = t@.symbols;
                let k = n - 1 - j;
                assert(sv[j as int] == t.symbols@[j as int]@);
                assert(own[k] == sv[n - 1 - k]);
                assert(sx == own[k]);
                assert(r@ == prev.push(s));
                let lhs = syms_view(r@);
                let rhs = syms_view(old(r)@) + own.take(n - j);
                assert(own.len() == n);
                assert(own.take(n - j).len() == n - j);
                assert(own.take(k).len() == k);
                assert(forall|m: int| 0 <= m < n - j ==> #[trigger] own.take(n - j)[m] == own[m]);
                assert(forall|m: int| 0 <= m < k ==> #[trigger] own.take(k)[m] == own[m]);
                assert(syms_view(prev) == syms_view(old(r)@) + own.take(k));
                assert(syms_view(prev).len() == prev.len());
                assert(syms_view(old(r)@).len() == old(r)@.len());
                assert(prev.len() == syms_view(old(r)@).len() + k);
                assert forall|i: int| 0 <= i < lhs.len() implies lhs[i] == rhs[i] by {
                    assert(lhs[i] == prev.push(s)[i]@);
                    if i < prev.len() {
                        assert(prev.push(s)[i] == prev[i]);
                        assert(syms_view(prev)[i] == prev[i]@);
                        assert(rhs[i] == (syms_view(old(r)@) + own.take(k))[i]);
                    } else {
                        assert(prev.push(s)[i] == s);
                        assert(rhs[i] == own.take(n - j)[i - syms_view(old(r)@).len()]);
                        assert(i - syms_view(old(r)@).len() == k);
                        assert(own.take(n - j)[k] == own[k]);
                    }
                }
                assert(lhs =~= rhs);
            }
        }
        proof {
            assert(own.take(t.symbols@.len() as int) =~= own);
        }
        match t.parent {
            Some(p) => {
                let ghost mid = r@;
                self.append_visible(p, r);
                proof {
                    assert(syms_view(r@) =~= syms_view(old(r)@) + visible(self@, from as int));
                }
            },
            None => {
                proof {
                    assert(visible(self@, from as int) == own);
                }
            },
        }
    }
}

/// The first visible non-function symbol named `id`, as an index into
/// `syms`, which must list the visible symbols.
pub fn find_variable(syms: &Vec<Symbol>, id: &String) -> (r: Option<usize>)
    ensures
        match r {
            Some(i) => i < syms@.len() && first_variable(syms_view(syms@), id@) == Some(
                syms@[i as int]@,
            ),
            None => first_variable(syms_view(syms@), id@) is None,
        },
{
    let ghost vis = syms_view(syms@);
    proof {
        assert(vis.skip(0) =~= vis);
    }
    let n = syms.len();
    let mut k: usize = 0;
    while k < n
        invariant
            k <= n,
            n == syms@.len(),
            vis == syms_view(syms@),
            first_variable(vis, id@) == first_variable(vis.skip(k as int), id@),
        decreases n - k,
    {
        let s = &syms[k];
        proof {
            assert(vis[k as int] == syms@[k as int]@);
            assert(vis.skip(k as int).first() == vis[k as int]);
            assert(vis.skip(k as int).drop_first() =~= vis.skip(k + 1int));
        }
        if !s.is_function() && s.id == *id {
            return Some(k);
        }
        k = k + 1;
    }
    proof {
        assert(vis.skip(n as int).len() == 0);
    }
    None
}

/// The first visible function symbol named `id`, as an index into `syms`.
pub fn find_function(syms: &Vec<Symbol>, id: &String) -> (r: Option<usize>)
    ensures
        match r {
            Some(i) => i < syms@.len() && first_function(syms_view(syms@), id@) == Some(
                syms@[i as int]@,
            ),
            None => first_function(syms_view(syms@), id@) is None,
        },
{
    let ghost vis = syms_view(syms@);
    proof {
        assert(vis.skip(0) =~= vis);
    }
    let n = syms.len();
    let mut k: usize = 0;
    while k < n
        invariant
            k <= n,
            n == syms@.len(),
            vis == syms_view(syms@),
            first_function(vis, id@) == first_function(vis.skip(k as int), id@),
        decreases n - k,
    {
        let s = &syms[k];
        proof {
            assert(vis[k as int] == syms@[k as int]@);
            assert(vis.skip(k as int).first() == vis[k as int]);
            assert(vis.skip(k as int).drop_first() =~= vis.skip(k + 1int));
        }
        if s.is_function() && s.id == *id {
            return Some(k);
        }
        k = k + 1;
    }
    proof {
        assert(vis.skip(n as int).len() == 0);
    }
    None
}

} // verus!
