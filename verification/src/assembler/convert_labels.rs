//! The label pass: binding each `(L)` declaration to the address of the
//! instruction that follows it, and removing the declarations.

use vstd::prelude::*;

use crate::assembler::ast::{stmt_view, stmt_views, Stmt, StmtV};
use crate::assembler::symbol_table::SymbolTable;

verus! {

/// An A- or C-instruction: a statement that occupies an address.
pub open spec fn is_instruction(sv: StmtV) -> bool {
    sv is A || sv is C
}

/// How many statements of the sequence occupy an address.
pub open spec fn count_instructions(vs: Seq<StmtV>) -> int
    decreases vs.len(),
{
    if vs.len() == 0 {
        0
    } else {
        (if is_instruction(vs[0]) {
            1int
        } else {
            0int
        }) + count_instructions(vs.skip(1))
    }
}

/// The table after walking the statements: each label bound to the count
/// of instructions seen before it.
pub open spec fn with_labels(m: Map<Seq<char>, u16>, vs: Seq<StmtV>, cnt: int) -> Map<
    Seq<char>,
    u16,
>
    decreases vs.len(),
{
    if vs.len() == 0 {
        m
    } else {
        match vs[0] {
            StmtV::Label(name) => with_labels(m.insert(name, cnt as u16), vs.skip(1), cnt),
            StmtV::Empty => with_labels(m, vs.skip(1), cnt),
            _ => with_labels(m, vs.skip(1), cnt + 1),
        }
    }
}

/// Binds every label of the program to the address of the instruction
/// that follows it; labels themselves occupy no address.
pub fn find_labels(statements: &Vec<Stmt>, symbol_table: &mut SymbolTable)
    requires
        statements@.len() <= 0xFFFF,
    ensures
        final(symbol_table)@ == with_labels(old(symbol_table)@, stmt_views(statements@), 0),
{
    let ghost vs = stmt_views(statements@);
    let ghost m0 = symbol_table@;
    let mut label_count: usize = 0;
    let mut i: usize = 0;
    proof {
        assert(vs.skip(0) =~= vs);
    }
    while i < statements.len()
        invariant
            i <= statements@.len() <= 0xFFFF,
            label_count <= i,
            vs == stmt_views(statements@),
            with_labels(m0, vs, 0) == with_labels(
                symbol_table@,
                vs.skip(i as int),
                i - label_count,
            ),
        decreases statements@.len() - i,
    {
        let ghost sfx = vs.skip(i as int);
        proof {
            assert(sfx[0] == vs[i as int]);
            assert(sfx.skip(1) =~= vs.skip(i + 1));
        }
        match &statements[i] {
            Stmt::Label(name) => {
                let value = (i - label_count) as u16;
                symbol_table.insert(name.clone(), value);
                label_count = label_count + 1;
            },
            Stmt::Empty => {
                label_count = label_count + 1;
            },
            _ => {},
        }
        i = i + 1;
    }
    proof {
        assert(vs.skip(i as int) =~= Seq::<StmtV>::empty());
    }
}

/// The statements with every label declaration removed.
pub open spec fn drop_labels(vs: Seq<StmtV>) -> Seq<StmtV>
    decreases vs.len(),
{
    if vs.len() == 0 {
        Seq::empty()
    } else if vs[0] is Label {
        drop_labels(vs.skip(1))
    } else {
        seq![vs[0]] + drop_labels(vs.skip(1))
    }
}

/// Removes every label declaration.
pub fn remove_all_labels(statements: Vec<Stmt>) -> (r: Vec<Stmt>)
    ensures
        stmt_views(r@) == drop_labels(stmt_views(statements@)),
{
    let ghost vs = stmt_views(statements@);
    let mut input = statements;
    let mut result: Vec<Stmt> = Vec::new();
    proof {
        assert(stmt_views(result@) + drop_labels(vs) =~= drop_labels(vs));
    }
    while input.len() > 0
        invariant
            drop_labels(vs) == stmt_views(result@) + drop_labels(stmt_views(input@)),
        decreases input@.len(),
    {
        let ghost pre_in = stmt_views(input@);
        let ghost pre_out = stmt_views(result@);
        let s = input.remove(0);
        proof {
            assert(stmt_views(input@) =~= pre_in.skip(1));
            assert(pre_in[0] == stmt_view(s));
        }
        match s {
            Stmt::Label(name) => {},
            stmt => {
                result.push(stmt);
                proof {
                    assert(stmt_views(result@) =~= pre_out.push(pre_in[0]));
                    assert(pre_out + (seq![pre_in[0]] + drop_labels(pre_in.skip(1)))
                        =~= stmt_views(result@) + drop_labels(pre_in.skip(1)));
                }
            },
        }
    }
    proof {
        assert(stmt_views(input@) =~= Seq::<StmtV>::empty());
        assert(stmt_views(result@) + Seq::<StmtV>::empty() =~= stmt_views(result@));
    }
    result
}

/// Removed labels never reappear, and nothing else is lost: the result
/// holds no label, and no empty statement unless the input held one.
pub proof fn lemma_drop_labels_shape(vs: Seq<StmtV>)
    ensures
        drop_labels(vs).len() <= vs.len(),
        forall|j: int| 0 <= j < drop_labels(vs).len() ==> !(#[trigger] drop_labels(vs)[j]
            is Label),
        (forall|i: int| 0 <= i < vs.len() ==> !(#[trigger] vs[i] is Empty)) ==> (forall|j: int|
            0 <= j < drop_labels(vs).len() ==> !(#[trigger] drop_labels(vs)[j] is Empty)),
    decreases vs.len(),
{
    if vs.len() > 0 {
        lemma_drop_labels_shape(vs.skip(1));
        if forall|i: int| 0 <= i < vs.len() ==> !(#[trigger] vs[i] is Empty) {
            assert(forall|i: int|
                0 <= i < vs.skip(1).len() ==> !(#[trigger] vs.skip(1)[i] is Empty)) by {
                assert(forall|i: int| 0 <= i < vs.skip(1).len() ==> vs.skip(1)[i] == vs[i + 1]);
            }
        }
    }
}

/// A walk over statements that hold no label named `name` leaves that
/// name's binding untouched.
pub proof fn lemma_with_labels_absent(
    m: Map<Seq<char>, u16>,
    vs: Seq<StmtV>,
    cnt: int,
    name: Seq<char>,
)
    requires
        forall|j: int| 0 <= j < vs.len() ==> !(#[trigger] vs[j] matches StmtV::Label(n) && n
            == name),
    ensures
        with_labels(m, vs, cnt).contains_key(name) == m.contains_key(name),
        m.contains_key(name) ==> with_labels(m, vs, cnt)[name] == m[name],
    decreases vs.len(),
{
    if vs.len() > 0 {
        assert(forall|j: int|
            0 <= j < vs.skip(1).len() ==> !(#[trigger] vs.skip(1)[j] matches StmtV::Label(n) && n
                == name)) by {
            assert(forall|j: int| 0 <= j < vs.skip(1).len() ==> vs.skip(1)[j] == vs[j + 1]);
        }
        match vs[0] {
            StmtV::Label(n0) => {
                assert(!(vs[0] matches StmtV::Label(n) && n == name));
                lemma_with_labels_absent(m.insert(n0, cnt as u16), vs.skip(1), cnt, name);
            },
            StmtV::Empty => {
                lemma_with_labels_absent(m, vs.skip(1), cnt, name);
            },
            _ => {
                lemma_with_labels_absent(m, vs.skip(1), cnt + 1, name);
            },
        }
    }
}

/// Label resolution is stable: a label declared at position `k`, and not
/// declared again later, is bound to the count of instructions that stand
/// before it, offset by the running count.
pub proof fn lemma_label_binding(
    m: Map<Seq<char>, u16>,
    vs: Seq<StmtV>,
    cnt: int,
    k: int,
    name: Seq<char>,
)
    requires
        0 <= k < vs.len(),
        vs[k] matches StmtV::Label(n) && n == name,
        forall|j: int| k < j < vs.len() ==> !(#[trigger] vs[j] matches StmtV::Label(n2) && n2
            == name),
        forall|i: int| 0 <= i < vs.len() ==> !(#[trigger] vs[i] is Empty),
    ensures
        with_labels(m, vs, cnt).contains_key(name),
        with_labels(m, vs, cnt)[name] == ((cnt + count_instructions(vs.take(k))) as u16),
    decreases vs.len(),
{
    assert(vs.skip(1).len() == vs.len() - 1);
    assert(forall|j: int| 0 <= j < vs.skip(1).len() ==> vs.skip(1)[j] == vs[j + 1]);
    if k == 0 {
        let n0 = vs[0]->Label_0;
        assert(vs.take(0) =~= Seq::<StmtV>::empty());
        lemma_with_labels_absent(m.insert(name, cnt as u16), vs.skip(1), cnt, name);
    } else {
        let rest = vs.skip(1);
        assert(vs.take(k).skip(1) =~= rest.take(k - 1));
        assert(count_instructions(vs.take(k)) == (if is_instruction(vs[0]) {
            1int
        } else {
            0int
        }) + count_instructions(rest.take(k - 1))) by {
            assert(vs.take(k)[0] == vs[0]);
            assert(vs.take(k).len() == k);
        }
        match vs[0] {
            StmtV::Label(n0) => {
                lemma_label_binding(m.insert(n0, cnt as u16), rest, cnt, k - 1, name);
            },
            StmtV::Empty => {
                assert(false);
            },
            _ => {
                lemma_label_binding(m, rest, cnt + 1, k - 1, name);
            },
        }
    }
}

} // verus!
