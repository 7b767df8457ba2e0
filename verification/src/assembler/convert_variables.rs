//! The variable pass: allocating each symbol not yet in the table to the
//! next free address, starting at 16, in first-encounter order.

use vstd::prelude::*;

use crate::assembler::ast::{stmt_views, AddressV, Stmt, StmtV};
use crate::assembler::symbol_table::SymbolTable;

verus! {

/// The table after walking the statements: each not-yet-bound symbol of
/// an A-instruction bound to the next free address.
pub open spec fn with_variables(m: Map<Seq<char>, u16>, vs: Seq<StmtV>, ctr: int) -> Map<
    Seq<char>,
    u16,
>
    decreases vs.len(),
{
    if vs.len() == 0 {
        m
    } else {
        match vs[0] {
            StmtV::A(AddressV::Symbol(name)) => if m.contains_key(name) {
                with_variables(m, vs.skip(1), ctr)
            } else {
                with_variables(m.insert(name, ctr as u16), vs.skip(1), ctr + 1)
            },
            _ => with_variables(m, vs.skip(1), ctr),
        }
    }
}

/// Binds every symbol that the table does not yet hold, in
/// first-encounter order, starting at address 16.
pub fn find_variables(statements: &Vec<Stmt>, symbol_table: &mut SymbolTable)
    requires
        statements@.len() + 16 <= 0xFFFF,
    ensures
        final(symbol_table)@ == with_variables(old(symbol_table)@, stmt_views(statements@), 16),
{
    let ghost vs = stmt_views(statements@);
    let ghost m0 = symbol_table@;
    let mut counter: usize = 16;
    let mut i: usize = 0;
    proof {
        assert(vs.skip(0) =~= vs);
    }
    while i < statements.len()
        invariant
            i <= statements@.len(),
            statements@.len() + 16 <= 0xFFFF,
            16 <= counter <= 16 + i,
            vs == stmt_views(statements@),
            with_variables(m0, vs, 16) == with_variables(
                symbol_table@,
                vs.skip(i as int),
                counter as int,
            ),
        decreases statements@.len() - i,
    {
        let ghost sfx = vs.skip(i as int);
        proof {
            assert(sfx[0] == vs[i as int]);
            assert(sfx.skip(1) =~= vs.skip(i + 1));
        }
        match &statements[i] {
            Stmt::A(address) => {
                match address {
                    crate::assembler::ast::Address::Symbol(symbol) => {
                        if !symbol_table.contains(symbol.as_str()) {
                            symbol_table.insert(symbol.clone(), counter as u16);
                            counter = counter + 1;
                        }
                    },
                    _ => {},
                }
            },
            _ => {},
        }
        i = i + 1;
    }
    proof {
        assert(vs.skip(i as int) =~= Seq::<StmtV>::empty());
    }
}

/// A binding already in the table survives the walk unchanged.
pub proof fn lemma_with_variables_preserves(
    m: Map<Seq<char>, u16>,
    vs: Seq<StmtV>,
    ctr: int,
    key: Seq<char>,
)
    requires
        m.contains_key(key),
    ensures
        with_variables(m, vs, ctr).contains_key(key),
        with_variables(m, vs, ctr)[key] == m[key],
    decreases vs.len(),
{
    if vs.len() > 0 {
        match vs[0] {
            StmtV::A(AddressV::Symbol(name)) => {
                if m.contains_key(name) {
                    lemma_with_variables_preserves(m, vs.skip(1), ctr, key);
                } else {
                    lemma_with_variables_preserves(
                        m.insert(name, ctr as u16),
                        vs.skip(1),
                        ctr + 1,
                        key,
                    );
                }
            },
            _ => {
                lemma_with_variables_preserves(m, vs.skip(1), ctr, key);
            },
        }
    }
}

/// After the walk, every symbol that an A-instruction names is bound.
pub proof fn lemma_with_variables_covers(m: Map<Seq<char>, u16>, vs: Seq<StmtV>, ctr: int)
    ensures
        forall|j: int|
            0 <= j < vs.len() ==> ((#[trigger] vs[j]) matches StmtV::A(AddressV::Symbol(name))
                ==> with_variables(m, vs, ctr).contains_key(name)),
    decreases vs.len(),
{
    if vs.len() > 0 {
        match vs[0] {
            StmtV::A(AddressV::Symbol(name)) => {
                if m.contains_key(name) {
                    lemma_with_variables_covers(m, vs.skip(1), ctr);
                    lemma_with_variables_preserves(m, vs, ctr, name);
                } else {
                    lemma_with_variables_covers(m.insert(name, ctr as u16), vs.skip(1), ctr + 1);
                    lemma_with_variables_preserves(
                        m.insert(name, ctr as u16),
                        vs.skip(1),
                        ctr + 1,
                        name,
                    );
                }
            },
            _ => {
                lemma_with_variables_covers(m, vs.skip(1), ctr);
            },
        }
        assert forall|j: int|
            0 <= j < vs.len() && (#[trigger] vs[j]) is A && vs[j]->A_0
                is Symbol implies with_variables(m, vs, ctr).contains_key(
            vs[j]->A_0->Symbol_0,
        ) by {
            if j > 0 {
                assert(vs[j] == vs.skip(1)[j - 1]);
            }
        }
    }
}

/// The not-yet-bound symbols of the A-instructions, in first-encounter
/// order, given the set of names already bound.
pub open spec fn new_symbols(bound: Set<Seq<char>>, vs: Seq<StmtV>) -> Seq<Seq<char>>
    decreases vs.len(),
{
    if vs.len() == 0 {
        Seq::empty()
    } else {
        match vs[0] {
            StmtV::A(AddressV::Symbol(name)) => if bound.contains(name) {
                new_symbols(bound, vs.skip(1))
            } else {
                seq![name] + new_symbols(bound.insert(name), vs.skip(1))
            },
            _ => new_symbols(bound, vs.skip(1)),
        }
    }
}

/// Variable allocation is deterministic: the k-th new symbol, in
/// first-encounter order, is bound to `ctr + k`.
pub proof fn lemma_variable_allocation(m: Map<Seq<char>, u16>, vs: Seq<StmtV>, ctr: int, k: int)
    requires
        0 <= k < new_symbols(m.dom(), vs).len(),
        ctr + new_symbols(m.dom(), vs).len() <= 0xFFFF,
        0 <= ctr,
    ensures
        with_variables(m, vs, ctr).contains_key(new_symbols(m.dom(), vs)[k]),
        with_variables(m, vs, ctr)[new_symbols(m.dom(), vs)[k]] == ((ctr + k) as u16),
    decreases vs.len(),
{
    if vs.len() > 0 {
        match vs[0] {
            StmtV::A(AddressV::Symbol(name)) => {
                if m.contains_key(name) {
                    assert(m.dom().contains(name));
                    lemma_variable_allocation(m, vs.skip(1), ctr, k);
                } else {
                    assert(!m.dom().contains(name));
                    let m2 = m.insert(name, ctr as u16);
                    assert(m2.dom() =~= m.dom().insert(name));
                    let syms = new_symbols(m.dom(), vs);
                    assert(syms == seq![name] + new_symbols(m.dom().insert(name), vs.skip(1)));
                    if k == 0 {
                        assert(syms[0] == name);
                        lemma_with_variables_preserves(m2, vs.skip(1), ctr + 1, name);
                    } else {
                        assert(syms[k] == new_symbols(m2.dom(), vs.skip(1))[k - 1]);
                        lemma_variable_allocation(m2, vs.skip(1), ctr + 1, k - 1);
                    }
                }
            },
            _ => {
                lemma_variable_allocation(m, vs.skip(1), ctr, k);
            },
        }
    }
}

} // verus!
