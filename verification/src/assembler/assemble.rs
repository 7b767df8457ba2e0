//! The whole assembler pipeline: parse, resolve labels, allocate
//! variables, encode, and render the binary text.

use vstd::prelude::*;
use vstd::string::StringExecFns;

use crate::assembler::ast::{stmt_view, stmt_views, Stmt, StmtV};
use crate::assembler::convert_labels::{
    count_instructions, drop_labels, find_labels, lemma_drop_labels_shape, remove_all_labels,
    with_labels,
};
use crate::assembler::convert_variables::{
    find_variables, lemma_with_variables_covers, with_variables,
};
use crate::assembler::interpreter::{encodable, interpret_ast, stmt_bits};
use crate::assembler::parser::{pair_views, parse_hack, parse_hack_lines};
use crate::assembler::symbol_table::{create_symbol_table, predefined_symbols};
use crate::strutil::{join, join_lines, lines_view, push_char, push_line_string};
use crate::textparse::spec_lines;

verus! {

/// One character of the binary rendering: bit `k` of the word.
pub open spec fn bit_char(v: u16, k: u16) -> char {
    if (v >> k) & 1 == 1 {
        '1'
    } else {
        '0'
    }
}

/// The sixteen-character binary rendering of a word, highest bit first.
pub open spec fn bin16(v: u16) -> Seq<char> {
    Seq::new(16, |i: int| bit_char(v, (15 - i) as u16))
}

/// Renders a word as sixteen binary digits.
pub fn to_binary_line(v: u16) -> (s: String)
    ensures
        s@ == bin16(v),
{
    let mut s = String::new();
    let mut i: usize = 0;
    while i < 16
        invariant
            i <= 16,
            s@ == bin16(v).take(i as int),
        decreases 16 - i,
    {
        let shift: u16 = 15 - (i as u16);
        let bit = (v >> shift) & 1;
        let c: char = if bit == 1 {
            '1'
        } else {
            '0'
        };
        push_char(&mut s, c);
        proof {
            assert(bin16(v)[i as int] == c);
            assert(s@ =~= bin16(v).take(i + 1));
        }
        i = i + 1;
    }
    proof {
        assert(bin16(v).take(16) =~= bin16(v));
    }
    s
}

/// The statements with every blank line removed.
pub open spec fn drop_empties(vs: Seq<StmtV>) -> Seq<StmtV>
    decreases vs.len(),
{
    if vs.len() == 0 {
        Seq::empty()
    } else if vs[0] is Empty {
        drop_empties(vs.skip(1))
    } else {
        seq![vs[0]] + drop_empties(vs.skip(1))
    }
}

/// Nothing blank survives, and no more statements than came in.
pub proof fn lemma_drop_empties_shape(vs: Seq<StmtV>)
    ensures
        drop_empties(vs).len() <= vs.len(),
        forall|j: int| 0 <= j < drop_empties(vs).len() ==> !(#[trigger] drop_empties(vs)[j]
            is Empty),
    decreases vs.len(),
{
    if vs.len() > 0 {
        lemma_drop_empties_shape(vs.skip(1));
    }
}

/// The parsed statements of the text, blanks dropped.
pub open spec fn assemble_stmts(items: Seq<(Seq<char>, StmtV)>) -> Seq<StmtV> {
    drop_empties(Seq::new(items.len(), |i: int| items[i].1))
}

/// The binary lines of an assembly text: each A- or C-instruction
/// encoded under the table that the two passes build, or the first
/// error.
pub open spec fn assemble_lines(text: Seq<char>) -> Result<Seq<Seq<char>>, Seq<char>> {
    match parse_hack_lines(spec_lines(text)) {
        Err(m) => Err(m),
        Ok(items) => {
            let stmts = assemble_stmts(items);
            if stmts.len() > 65519 {
                Err("Program too large"@)
            } else {
                let labelled = with_labels(predefined_symbols(), stmts, 0);
                let code = drop_labels(stmts);
                let table = with_variables(labelled, code, 16);
                Ok(Seq::new(code.len(), |i: int| bin16(stmt_bits(code[i], table))))
            }
        },
    }
}

/// The full binary text of an assembly text, or the first error.
pub open spec fn spec_assemble(text: Seq<char>) -> Result<Seq<char>, Seq<char>> {
    match assemble_lines(text) {
        Ok(ls) => Ok(join_lines(ls)),
        Err(m) => Err(m),
    }
}

/// Assembles a source text into one binary line per instruction.
pub fn assemble(source: &str) -> (r: Result<String, String>)
    ensures
        match spec_assemble(source@) {
            Ok(text) => r matches Ok(s) && s@ == text,
            Err(m) => r matches Err(e) && e@ == m,
        },
{
    let mut pairs = match parse_hack(source) {
        Ok(pairs) => pairs,
        Err(e) => {
            return Err(e);
        },
    };
    let ghost items = parse_hack_lines(spec_lines(source@))->Ok_0;
    let ghost all = Seq::new(items.len(), |i: int| items[i].1);

    // Remove the blank statements.
    let mut statements: Vec<Stmt> = Vec::new();
    proof {
        assert(Seq::new(pair_views(pairs@).len(), |i: int| pair_views(pairs@)[i].1) =~= all);
        assert(stmt_views(statements@) + drop_empties(all) =~= drop_empties(all));
        assert(Seq::new(pairs@.len(), |i: int| stmt_view(pairs@[i].1)) =~= all);
    }
    while pairs.len() > 0
        invariant
            drop_empties(all) == stmt_views(statements@) + drop_empties(
                Seq::new(pairs@.len(), |i: int| stmt_view(pairs@[i].1)),
            ),
        decreases pairs@.len(),
    {
        let ghost pre_in = Seq::new(pairs@.len(), |i: int| stmt_view(pairs@[i].1));
        let ghost pre_out = stmt_views(statements@);
        let pair = pairs.remove(0);
        proof {
            assert(Seq::new(pairs@.len(), |i: int| stmt_view(pairs@[i].1)) =~= pre_in.skip(1));
            assert(pre_in[0] == stmt_view(pair.1));
        }
        match pair.1 {
            Stmt::Empty => {},
            stmt => {
                statements.push(stmt);
                proof {
                    assert(stmt_views(statements@) =~= pre_out.push(pre_in[0]));
                    assert(pre_out + (seq![pre_in[0]] + drop_empties(pre_in.skip(1)))
                        =~= stmt_views(statements@) + drop_empties(pre_in.skip(1)));
                }
            },
        }
    }
    proof {
        assert(Seq::new(pairs@.len(), |i: int| stmt_view(pairs@[i].1)) =~= Seq::<StmtV>::empty());
        assert(stmt_views(statements@) + Seq::<StmtV>::empty() =~= stmt_views(statements@));
        assert(stmt_views(statements@) == drop_empties(all));
    }

    if statements.len() > 65519 {
        return Err(String::from_str("Program too large"));
    }
    let ghost stmts = stmt_views(statements@);

    let mut symbol_table = create_symbol_table();
    find_labels(&statements, &mut symbol_table);
    let statements = remove_all_labels(statements);
    let ghost code = stmt_views(statements@);
    proof {
        lemma_drop_empties_shape(all);
        lemma_drop_labels_shape(stmts);
    }
    find_variables(&statements, &mut symbol_table);
    proof {
        lemma_with_variables_covers(with_labels(predefined_symbols(), stmts, 0), code, 16);
        assert(forall|i: int|
            0 <= i < code.len() ==> encodable(#[trigger] code[i], symbol_table@)) by {
            assert(forall|i: int| 0 <= i < code.len() ==> !(#[trigger] code[i] is Label));
            assert(forall|i: int| 0 <= i < stmts.len() ==> !(#[trigger] stmts[i] is Empty));
            assert(forall|i: int| 0 <= i < code.len() ==> !(#[trigger] code[i] is Empty));
        }
    }
    let binary = interpret_ast(&statements, &symbol_table);

    let ghost target_lines = Seq::new(
        code.len(),
        |i: int| bin16(stmt_bits(code[i], symbol_table@)),
    );
    let mut lines: Vec<String> = Vec::new();
    let mut i: usize = 0;
    while i < binary.len()
        invariant
            i <= binary@.len(),
            binary@.len() == code.len(),
            binary@ == Seq::new(code.len(), |k: int| stmt_bits(code[k], symbol_table@)),
            target_lines == Seq::new(code.len(), |k: int| bin16(stmt_bits(code[k], symbol_table@))),
            lines_view(lines@) == target_lines.take(i as int),
        decreases binary@.len() - i,
    {
        let line = to_binary_line(binary[i]);
        push_line_string(&mut lines, line);
        proof {
            assert(lines_view(lines@) =~= target_lines.take(i + 1));
        }
        i = i + 1;
    }
    proof {
        assert(target_lines.take(code.len() as int) =~= target_lines);
        assert(lines_view(lines@) == target_lines);
    }
    Ok(join(&lines))
}

/// Exactly one sixteen-character binary line comes out per A- or
/// C-instruction of the source; labels and blanks produce none, and each
/// line holds only the characters `0` and `1`.
pub proof fn lemma_one_line_per_instruction(text: Seq<char>, items: Seq<(Seq<char>, StmtV)>)
    requires
        parse_hack_lines(spec_lines(text)) == Ok::<Seq<(Seq<char>, StmtV)>, Seq<char>>(items),
        assemble_lines(text) is Ok,
    ensures
        ({
            let ls = assemble_lines(text)->Ok_0;
            &&& ls.len() == count_instructions(Seq::new(items.len(), |i: int| items[i].1))
            &&& forall|j: int| 0 <= j < ls.len() ==> (#[trigger] ls[j]).len() == 16
            &&& forall|j: int, k: int|
                0 <= j < ls.len() && 0 <= k < 16 ==> (#[trigger] ls[j][k]) == '0' || ls[j][k] == '1'
        }),
{
    let all = Seq::new(items.len(), |i: int| items[i].1);
    let stmts = drop_empties(all);
    let code = drop_labels(stmts);
    lemma_count_drop_empties(all);
    lemma_drop_empties_shape(all);
    lemma_len_drop_labels(stmts);
    let ls = assemble_lines(text)->Ok_0;
    assert(ls.len() == code.len());
    assert(forall|j: int| 0 <= j < ls.len() ==> (#[trigger] ls[j]).len() == 16);
    assert(forall|j: int, k: int|
        0 <= j < ls.len() && 0 <= k < 16 ==> (#[trigger] ls[j][k]) == '0' || ls[j][k] == '1') by {
        assert(forall|v: u16, k: u16| bit_char(v, k) == '0' || bit_char(v, k) == '1');
    }
}

/// Dropping blanks does not change the instruction count.
proof fn lemma_count_drop_empties(vs: Seq<StmtV>)
    ensures
        count_instructions(drop_empties(vs)) == count_instructions(vs),
    decreases vs.len(),
{
    if vs.len() > 0 {
        lemma_count_drop_empties(vs.skip(1));
        if !(vs[0] is Empty) {
            let d = seq![vs[0]] + drop_empties(vs.skip(1));
            assert(d.skip(1) =~= drop_empties(vs.skip(1)));
        }
    }
}

/// On statements without blanks, dropping labels leaves exactly the
/// instructions.
proof fn lemma_len_drop_labels(vs: Seq<StmtV>)
    requires
        forall|i: int| 0 <= i < vs.len() ==> !(#[trigger] vs[i] is Empty),
    ensures
        drop_labels(vs).len() == count_instructions(vs),
    decreases vs.len(),
{
    if vs.len() > 0 {
        assert(forall|i: int| 0 <= i < vs.skip(1).len() ==> vs.skip(1)[i] == vs[i + 1]);
        lemma_len_drop_labels(vs.skip(1));
    }
}


/// The symbol listing of a parsed file: each source line prefixed by the
/// address counter, which moves only past A- and C-instructions.
pub open spec fn symbol_listing(pairs: Seq<(Seq<char>, StmtV)>, counter: nat) -> Seq<Seq<char>>
    decreases pairs.len(),
{
    if pairs.len() == 0 {
        Seq::empty()
    } else {
        let line = crate::strutil::dec_str(counter) + " "@ + pairs[0].0;
        let next = if pairs[0].1 is A || pairs[0].1 is C {
            counter + 1
        } else {
            counter
        };
        seq![line] + symbol_listing(pairs.skip(1), next)
    }
}

/// Builds the symbol listing: the line-by-line text beside the address
/// each instruction will occupy.
pub fn symbol_lines(statements: &Vec<(String, Stmt)>) -> (r: Vec<String>)
    requires
        statements@.len() <= 0xFFFF,
    ensures
        lines_view(r@) == symbol_listing(pair_views(statements@), 0),
{
    let ghost pairs = pair_views(statements@);
    let mut symbols: Vec<String> = Vec::new();
    let mut line_counter: usize = 0;
    let mut i: usize = 0;
    proof {
        assert(pairs.skip(0) =~= pairs);
    }
    while i < statements.len()
        invariant
            i <= statements@.len() <= 0xFFFF,
            line_counter <= i,
            pairs == pair_views(statements@),
            symbol_listing(pairs, 0) == lines_view(symbols@) + symbol_listing(
                pairs.skip(i as int),
                line_counter as nat,
            ),
        decreases statements@.len() - i,
    {
        let ghost sfx = pairs.skip(i as int);
        proof {
            assert(sfx[0] == pairs[i as int]);
            assert(sfx.skip(1) =~= pairs.skip(i + 1));
        }
        let ghost pre = lines_view(symbols@);
        let ghost c0 = line_counter as nat;
        let number = crate::strutil::usize_to_string(line_counter);
        let mut line = number;
        line.append(" ");
        line.append(statements[i].0.as_str());
        proof {
            assert(line@ =~= crate::strutil::dec_str(c0) + " "@ + sfx[0].0);
        }
        crate::strutil::push_line_string(&mut symbols, line);
        match &statements[i].1 {
            Stmt::A(a) => {
                line_counter = line_counter + 1;
            },
            Stmt::C(c) => {
                line_counter = line_counter + 1;
            },
            _ => {},
        }
        proof {
            let l = crate::strutil::dec_str(c0) + " "@ + sfx[0].0;
            let rest = symbol_listing(pairs.skip(i + 1), line_counter as nat);
            assert(pre + (seq![l] + rest) =~= pre.push(l) + rest);
        }
        i = i + 1;
    }
    proof {
        assert(pairs.skip(i as int) =~= Seq::<(Seq<char>, StmtV)>::empty());
        assert(lines_view(symbols@) + Seq::<Seq<char>>::empty() =~= lines_view(symbols@));
    }
    symbols
}

} // verus!
