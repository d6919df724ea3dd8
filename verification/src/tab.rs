//! The symbol-table listing: one block per function of the global table, in
//! declaration order, holding the globals declared up to and including the
//! function, then the function's own symbols, all numbered from zero.

use vstd::prelude::*;
use vstd::string::StringExecFns;
use crate::symbol_table::KindV;
use crate::symbol_table::Scope;
use crate::symbol_table::Symbol;
use crate::symbol_table::SymbolKind;
use crate::symbol_table::SymbolTable;
use crate::symbol_table::SymbolV;
use crate::symbol_table::TableV;
use crate::symbol_table::syms_view;
use crate::text::dec_digits;
use crate::text::usize_to_string;

verus! {

/// The printed name of a scope.
pub open spec fn scope_text(s: Scope) -> Seq<char> {
    match s {
        Scope::Global => "GLOBALE"@,
        Scope::Local => "LOCALE"@,
        Scope::Argument => "ARGUMENT"@,
    }
}

/// One numbered symbol line: index, identifier, scope, kind, address, and
/// the element count, arity, or 1.
pub open spec fn symbol_line(s: SymbolV, i: int) -> Seq<char> {
    let (scope, kind, additional): (Scope, Seq<char>, int) = match s.kind {
        KindV::Scalar { scope } => (scope, "ENTIER"@, 1),
        KindV::Vector { scope, size } => (scope, "TABLEAU"@, size),
        KindV::Function { nb_arguments, .. } => (Scope::Global, "FONCTION"@, nb_arguments),
    };
    dec_digits(i as nat) + " "@ + s.id + " "@ + scope_text(scope) + " "@ + kind + " "@
        + dec_digits(s.address as nat) + " "@ + dec_digits(additional as nat) + "\n"@
}

/// The numbered lines for the symbols from position `i` on.
pub open spec fn symbol_lines(syms: Seq<SymbolV>, i: int) -> Seq<char>
    decreases syms.len() - i,
{
    if i < 0 || i >= syms.len() {
        Seq::empty()
    } else {
        symbol_line(syms[i], i) + symbol_lines(syms, i + 1)
    }
}

/// The separator line of a block.
pub open spec fn dashes() -> Seq<char> {
    "------------------------------------------\n"@
}

/// The listing block for the function at position `i0` of the global
/// table.
pub open spec fn table_block(tables: Seq<TableV>, i0: int) -> Seq<char> {
    let f = tables[0].symbols[i0];
    match f.kind {
        KindV::Function { symbol_table, .. } => {
            if 0 <= symbol_table < tables.len() {
                let merged = tables[0].symbols.take(i0 + 1) + tables[symbol_table].symbols;
                let child_len = tables[symbol_table].symbols.len() as int;
                dashes() + "base = "@ + dec_digits((i0 + 1) as nat) + "\n"@ + "sommet = "@
                    + dec_digits((i0 + 1 + child_len) as nat) + "\n"@ + symbol_lines(merged, 0)
                    + dashes()
            } else {
                Seq::empty()
            }
        },
        _ => Seq::empty(),
    }
}

/// The listing from global position `i0` on: a block for each function.
pub open spec fn table_text_from(tables: Seq<TableV>, i0: int) -> Seq<char>
    decreases tables[0].symbols.len() - i0,
{
    if i0 < 0 || i0 >= tables[0].symbols.len() {
        Seq::empty()
    } else {
        table_block(tables, i0) + table_text_from(tables, i0 + 1)
    }
}

/// The whole listing.
pub open spec fn table_text(tables: Seq<TableV>) -> Seq<char> {
    table_text_from(tables, 0)
}

/// Every function symbol of the global table names an existing child
/// table.
pub open spec fn children_in_range(tables: Seq<TableV>) -> bool {
    forall|k: int|
        0 <= k < tables[0].symbols.len() ==> match (#[trigger] tables[0].symbols[k]).kind {
            KindV::Function { symbol_table, .. } => 0 <= symbol_table < tables.len() && k + 1
                + tables[symbol_table].symbols.len() <= usize::MAX,
            _ => true,
        }
}

/// Renders one numbered symbol line.
fn symbol_line_string(s: &Symbol, i: usize) -> (r: String)
    ensures
        r@ == symbol_line(s@, i as int),
{
    let mut out = usize_to_string(i);
    out.append(" ");
    out.append(s.id.as_str());
    out.append(" ");
    match s.kind {
        SymbolKind::Scalar { scope } => {
            out.append(scope_str(scope));
            out.append(" ENTIER ");
            out.append(usize_to_string(s.address).as_str());
            out.append(" 1\n");
            proof {
                reveal_strlit(" ENTIER ");
                reveal_strlit(" ");
                reveal_strlit(" 1\n");
                reveal_strlit("ENTIER");
                reveal_strlit("1");
                reveal_strlit("\n");
                assert(out@ =~= symbol_line(s@, i as int));
            }
        },
        SymbolKind::Vector { scope, size } => {
            out.append(scope_str(scope));
            out.append(" TABLEAU ");
            out.append(usize_to_string(s.address).as_str());
            out.append(" ");
            out.append(crate::text::u64_to_string(size as u64).as_str());
            out.append("\n");
            proof {
                reveal_strlit(" TABLEAU ");
                reveal_strlit("TABLEAU");
                reveal_strlit(" ");
                reveal_strlit("\n");
                assert(out@ =~= symbol_line(s@, i as int));
            }
        },
        SymbolKind::Function { nb_arguments, .. } => {
            out.append(scope_str(Scope::Global));
            out.append(" FONCTION ");
            out.append(usize_to_string(s.address).as_str());
            out.append(" ");
            out.append(usize_to_string(nb_arguments).as_str());
            out.append("\n");
            proof {
                reveal_strlit(" FONCTION ");
                reveal_strlit("FONCTION");
                reveal_strlit(" ");
                reveal_strlit("\n");
                assert(out@ =~= symbol_line(s@, i as int));
            }
        },
    }
    out
}

/// The printed name of a scope.
fn scope_str(s: Scope) -> (r: &'static str)
    ensures
        r@ == scope_text(s),
{
    match s {
        Scope::Global => "GLOBALE",
        Scope::Local => "LOCALE",
        Scope::Argument => "ARGUMENT",
    }
}

impl SymbolTable {
    /// Renders the whole listing: one block per function of the global
    /// table.
    pub fn as_table(&self) -> (r: String)
        requires
            self@.len() >= 1,
            children_in_range(self@),
        ensures
            r@ == table_text(self@),
    {
        let mut out = String::new();
        let g = self.tables[0].symbols.len();
        proof {
            assert(self@[0] == self.tables@[0]@);
            assert(g == self@[0].symbols.len());
        }
        let mut i0: usize = 0;
        while i0 < g
            invariant
                i0 <= g,
                self@.len() >= 1,
                children_in_range(self@),
                g == self@[0].symbols.len(),
                self@[0] == self.tables@[0]@,
                out@ + table_text_from(self@, i0 as int) == table_text(self@),
            decreases g - i0,
        {
            let is_fun = self.tables[0].symbols[i0].is_function();
            proof {
                assert(self@[0].symbols[i0 as int] == self.tables@[0].symbols@[i0 as int]@);
            }
            if is_fun {
                let block = self.function_block(i0);
                out.append(block.as_str());
            }
            proof {
                if !is_fun {
                    assert(table_block(self@, i0 as int) == Seq::<char>::empty());
                }
                assert(out@ + table_text_from(self@, i0 + 1int) =~= table_text(self@));
            }
            i0 = i0 + 1;
        }
        proof {
            assert(out@ + table_text_from(self@, g as int) =~= out@);
        }
        out
    }

    /// Renders the block for the function at global position `i0`.
    fn function_block(&self, i0: usize) -> (r: String)
        requires
            self@.len() >= 1,
            children_in_range(self@),
            i0 < self@[0].symbols.len(),
            self@[0].symbols[i0 as int].is_function(),
        ensures
            r@ == table_block(self@, i0 as int),
    {
        proof {
            assert(self@[0] == self.tables@[0]@);
            assert(self@[0].symbols[i0 as int] == self.tables@[0].symbols@[i0 as int]@);
        }
        let ct: usize = match self.tables[0].symbols[i0].kind {
            SymbolKind::Function { symbol_table, .. } => symbol_table,
            _ => 0,
        };
        let mut merged: Vec<Symbol> = Vec::new();
        let len0 = self.tables[0].symbols.len();
        let mut j: usize = 0;
        proof {
            assert(syms_view(merged@) =~= Seq::<SymbolV>::empty());
            assert(len0 == self@[0].symbols.len());
        }
        while j <= i0
            invariant
                j <= i0 + 1,
                self@.len() >= 1,
                i0 < len0,
                len0 == self@[0].symbols.len(),
                i0 < self@[0].symbols.len(),
                self@[0] == self.tables@[0]@,
                syms_view(merged@) =~= self@[0].symbols.take(j as int),
            decreases i0 + 1 - j,
        {
            let ghost prev = merged@;
            proof {
                assert(self@[0].symbols.len() == self.tables@[0].symbols@.len());
            }
            let s = self.tables[0].symbols[j].clone();
            let ghost sx = s@;
            merged.push(s);
            proof {
                let full = self@[0].symbols;
                assert(full[j as int] == self.tables@[0].symbols@[j as int]@);
                assert(sx == full[j as int]);
                assert(merged@ == prev.push(s));
                assert(syms_view(prev) == full.take(j as int));
                assert(syms_view(prev).len() == prev.len());
                assert(full.take(j as int).len() == j);
                assert(syms_view(merged@).len() == prev.len() + 1);
                assert(full.take(j + 1int).len() == j + 1);
                assert(syms_view(merged@) =~= full.take(j + 1int)) by {
                    assert forall|m: int|
                        0 <= m < syms_view(merged@).len() implies syms_view(merged@)[m]
                        == full.take(j + 1int)[m] by {
                        assert(syms_view(merged@)[m] == merged@[m]@);
                        assert(full.take(j + 1int)[m] == full[m]);
                        if m < prev.len() {
                            assert(merged@[m] == prev[m]);
                            assert(syms_view(prev)[m] == prev[m]@);
                            assert(full.take(j as int)[m] == full[m]);
                        } else {
                            assert(merged@[m] == s);
                            assert(m == j);
                        }
                    }
                }
            }
            j = j + 1;
        }
        let child_len = self.tables[ct].symbols.len();
        proof {
            assert(self@[ct as int] == self.tables@[ct as int]@);
            assert(child_len == self@[ct as int].symbols.len());
        }
        let mut k: usize = 0;
        while k < child_len
            invariant
                k <= child_len,
                self@.len() >= 1,
                i0 < self@[0].symbols.len(),
                ct < self@.len(),
                self@[0] == self.tables@[0]@,
                self@[ct as int] == self.tables@[ct as int]@,
                child_len == self@[ct as int].symbols.len(),
                syms_view(merged@) =~= self@[0].symbols.take(i0 + 1)
                    + self@[ct as int].symbols.take(k as int),
            decreases child_len - k,
        {
            let ghost prev = merged@;
            proof {
                assert(self@[ct as int].symbols.len() == self.tables@[ct as int].symbols@.len());
            }
            let s = self.tables[ct].symbols[k].clone();
            let ghost sx = s@;
            merged.push(s);
            proof {
                let head = self@[0].symbols.take(i0 + 1);
                let ch = self@[ct as int].symbols;
                assert(ch[k as int] == self.tables@[ct as int].symbols@[k as int]@);
                assert(sx == ch[k as int]);
                assert(merged@ == prev.push(s));
                assert(syms_view(prev) == head + ch.take(k as int));
                assert(syms_view(prev).len() == prev.len());
                assert(head.len() == i0 + 1);
                assert(ch.take(k as int).len() == k);
                assert(ch.take(k + 1int).len() == k + 1);
                assert(syms_view(merged@).len() == prev.len() + 1);
                assert(syms_view(merged@) =~= head + ch.take(k + 1int)) by {
                    assert forall|m: int|
                        0 <= m < syms_view(merged@).len() implies syms_view(merged@)[m] == (head
                        + ch.take(k + 1int))[m] by {
                        assert(syms_view(merged@)[m] == merged@[m]@);
                        if m < prev.len() {
                            assert(merged@[m] == prev[m]);
                            assert(syms_view(prev)[m] == prev[m]@);
                            if m < head.len() {
                                assert((head + ch.take(k as int))[m] == head[m]);
                                assert((head + ch.take(k + 1int))[m] == head[m]);
                            } else {
                                assert((head + ch.take(k as int))[m] == ch.take(k as int)[m
                                    - head.len()]);
                                assert((head + ch.take(k + 1int))[m] == ch.take(k + 1int)[m
                                    - head.len()]);
                                assert(ch.take(k as int)[m - head.len()] == ch[m - head.len()]);
                                assert(ch.take(k + 1int)[m - head.len()] == ch[m - head.len()]);
                            }
                        } else {
                            assert(merged@[m] == s);
                            assert(m == prev.len());
                            assert(m - head.len() == k);
                            assert((head + ch.take(k + 1int))[m] == ch.take(k + 1int)[k as int]);
                            assert(ch.take(k + 1int)[k as int] == ch[k as int]);
                        }
                    }
                }
            }
            k = k + 1;
        }
        proof {
            assert(self@[ct as int].symbols.take(child_len as int)
                =~= self@[ct as int].symbols);
        }
        let dash = "------------------------------------------\n";
        let mut out = dash.to_owned();
        out.append("base = ");
        out.append(usize_to_string(i0 + 1).as_str());
        out.append("\n");
        out.append("sommet = ");
        out.append(usize_to_string(i0 + 1 + child_len).as_str());
        out.append("\n");
        let ghost merged_v = syms_view(merged@);
        let n = merged.len();
        let ghost head = out@;
        let mut m: usize = 0;
        while m < n
            invariant
                m <= n,
                n == merged@.len(),
                merged_v == syms_view(merged@),
                out@ + symbol_lines(merged_v, m as int) == head + symbol_lines(merged_v, 0),
            decreases n - m,
        {
            proof {
                assert(merged_v[m as int] == merged@[m as int]@);
            }
            let line = symbol_line_string(&merged[m], m);
            out.append(line.as_str());
            proof {
                assert(out@ + symbol_lines(merged_v, m + 1int) =~= head + symbol_lines(
                    merged_v,
                    0,
                ));
            }
            m = m + 1;
        }
        out.append(dash);
        proof {
            reveal_strlit("base = ");
            reveal_strlit("sommet = ");
            reveal_strlit("\n");
            assert(symbol_lines(merged_v, n as int) == Seq::<char>::empty());
            assert(out@ =~= table_block(self@, i0 as int));
        }
        out
    }
}

} // verus!
