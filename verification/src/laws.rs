//! The general laws of the library, each proved over the spec mirrors that
//! the executable functions are held to.

use vstd::prelude::*;
use crate::ast::Program;
use crate::diagnostic::Diagnostic;
use crate::gen::GenV;
use crate::gen::elabel;
use crate::gen::flabel;
use crate::gen::ginv;
use crate::gen::reads_at;
use crate::semantic::ana_stmts;
use crate::semantic::analyse_result;
use crate::semantic::has_main;
use crate::semantic::init_ana;
use crate::symbol_table::SymbolV;
use crate::symbol_table::TableV;
use crate::symbol_table::first_variable;
use crate::symbol_table::rev_syms;
use crate::symbol_table::st_wf;
use crate::symbol_table::visible;
use crate::tab::table_text;
use crate::text::dec_digits;
use crate::text::lemma_dec_digits_injective;
use crate::text::lemma_dec_digits_len;

verus! {

/// Law: in generated code, every temp's recorded last use is the greatest
/// index of an instruction that reads it, or -1 when no instruction reads
/// it. `Program::gen_three_address_code` ensures `ginv` of its result, so
/// this holds of every generated sequence.
pub proof fn lemma_last_use_correct(g: GenV, t: int)
    requires
        ginv(g),
        0 <= t < g.temps,
    ensures
        (g.last_uses[t] == -1 && forall|i: int| !#[trigger] reads_at(g.instrs, i, t)) || (
        reads_at(g.instrs, g.last_uses[t], t) && forall|i: int|
            #[trigger] reads_at(g.instrs, i, t) ==> i <= g.last_uses[t]),
{
    if reads_at(g.instrs, g.last_uses[t], t) {
        assert forall|i: int| #[trigger] reads_at(g.instrs, i, t) implies i <= g.last_uses[t] by {}
    } else {
        assert(g.last_uses[t] == -1);
        assert forall|i: int| !#[trigger] reads_at(g.instrs, i, t) by {}
    }
}

/// Law: the analyser is a function of the tree alone, so two runs over the
/// same tree give tables with the same listing bytes.
/// `Program::analyse` ensures that the table it returns views exactly to
/// `analyse_result(p).tables`, so any two returned tables print alike.
pub proof fn lemma_analyser_idempotent(p: Program, a: Seq<TableV>, b: Seq<TableV>)
    requires
        a == analyse_result(p).tables,
        b == analyse_result(p).tables,
    ensures
        table_text(a) == table_text(b),
{
}

/// Law: a program whose declarations and uses pass the walk cleanly but
/// that lacks a function named `main` is flagged with `MainUndeclared` and
/// nothing else.
pub proof fn lemma_main_undeclared(p: Program)
    requires
        ana_stmts(p.0@, 0, init_ana()).errors.len() == 0,
        !has_main(ana_stmts(p.0@, 0, init_ana()).tables),
    ensures
        analyse_result(p).errors =~= seq![
            Diagnostic::Error(crate::diagnostic::Error::MainUndeclared),
        ],
{
}

/// The first match wins: when position `j` of `syms` holds the first
/// non-function symbol named `id`, the lookup returns it.
pub proof fn lemma_first_variable_at(syms: Seq<SymbolV>, id: Seq<char>, j: int)
    requires
        0 <= j < syms.len(),
        !syms[j].is_function(),
        syms[j].id == id,
        forall|m: int|
            0 <= m < j ==> !(!(#[trigger] syms[m]).is_function() && syms[m].id == id),
    ensures
        first_variable(syms, id) == Some(syms[j]),
    decreases j,
{
    if j == 0 {
    } else {
        assert(syms.drop_first()[j - 1] == syms[j]);
        assert forall|m: int|
            0 <= m < j - 1 implies !(!(#[trigger] syms.drop_first()[m]).is_function()
            && syms.drop_first()[m].id == id) by {
            assert(syms.drop_first()[m] == syms[m + 1]);
        }
        lemma_first_variable_at(syms.drop_first(), id, j - 1);
    }
}

/// A match in the front part settles the lookup before the back part is
/// reached.
pub proof fn lemma_first_variable_append(a: Seq<SymbolV>, b: Seq<SymbolV>, id: Seq<char>)
    requires
        first_variable(a, id) is Some,
    ensures
        first_variable(a + b, id) == first_variable(a, id),
    decreases a.len(),
{
    assert(a.len() > 0);
    assert((a + b).len() > 0);
    assert((a + b).first() == a.first());
    if !a.first().is_function() && a.first().id == id {
    } else {
        assert((a + b).drop_first() =~= a.drop_first() + b);
        lemma_first_variable_append(a.drop_first(), b, id);
    }
}

/// Law: the nearest scope wins. When table `t` itself declares a data
/// symbol named `id`, and position `k` holds the latest such declaration,
/// the lookup from `t` resolves to it: a later declaration shadows an
/// earlier one of the same table, and the table's own symbols shadow every
/// ancestor's. With the analyser's layout — arguments appended before
/// locals, globals in the ancestor table — this is exactly: a local wins
/// over an argument, and both win over a global.
pub proof fn lemma_nearest_scope(tables: Seq<TableV>, t: int, id: Seq<char>, k: int)
    requires
        st_wf(tables),
        0 <= t < tables.len(),
        0 <= k < tables[t].symbols.len(),
        !tables[t].symbols[k].is_function(),
        tables[t].symbols[k].id == id,
        forall|m: int|
            k < m < tables[t].symbols.len() ==> !(!(#[trigger] tables[t].symbols[m]).is_function()
                && tables[t].symbols[m].id == id),
    ensures
        first_variable(visible(tables, t), id) == Some(tables[t].symbols[k]),
{
    let own = rev_syms(tables[t].symbols);
    let n = tables[t].symbols.len() as int;
    let j = n - 1 - k;
    assert(own[j] == tables[t].symbols[k]);
    assert forall|m: int|
        0 <= m < j implies !(!(#[trigger] own[m]).is_function() && own[m].id == id) by {
        assert(own[m] == tables[t].symbols[n - 1 - m]);
    }
    lemma_first_variable_at(own, id, j);
    match tables[t].parent {
        Some(p) => {
            if 0 <= p < t {
                lemma_first_variable_append(own, visible(tables, p), id);
            }
        },
        None => {},
    }
}

/// Law: two distinct fresh labels bear distinct names, so a label the
/// generator allocates is never redefined by a later allocation.
pub proof fn lemma_fresh_labels_distinct(k1: int, k2: int)
    requires
        0 <= k1,
        0 <= k2,
        k1 != k2,
    ensures
        elabel(k1) != elabel(k2),
{
    if elabel(k1) == elabel(k2) {
        let d1 = dec_digits(k1 as nat);
        let d2 = dec_digits(k2 as nat);
        assert(("e"@ + d1).len() == ("e"@ + d2).len());
        assert(d1 =~= d2) by {
            assert forall|i: int| 0 <= i < d1.len() implies d1[i] == d2[i] by {
                assert(("e"@ + d1)[i + "e"@.len()] == d1[i]);
                assert(("e"@ + d2)[i + "e"@.len()] == d2[i]);
            }
        }
        lemma_dec_digits_injective(k1 as nat, k2 as nat);
    }
}

/// Law: a fresh label never collides with a function's label: the one
/// starts with 'e', the other with 'f'.
pub proof fn lemma_fresh_label_not_function(k: int, id: Seq<char>)
    requires
        0 <= k,
    ensures
        elabel(k) != flabel(id),
{
    reveal_strlit("e");
    reveal_strlit("f");
    lemma_dec_digits_len(k as nat);
    if elabel(k) == flabel(id) {
        assert(elabel(k)[0] == 'e');
        assert(flabel(id)[0] == 'f');
    }
}

} // verus!
