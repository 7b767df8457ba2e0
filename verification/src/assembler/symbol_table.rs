//! The assembler's symbol table and its predefined symbols.

use vstd::prelude::*;
use vstd::string::StringExecFns;

use crate::textparse::str_eq;

verus! {

/// A table from symbol names to addresses; a later insertion of the same
/// name shadows the earlier one, as the map view shows.
pub struct SymbolTable {
    entries: Vec<(String, u16)>,
}

/// The map described by an entry list, later entries winning.
pub open spec fn entries_map(entries: Seq<(String, u16)>) -> Map<Seq<char>, u16>
    decreases entries.len(),
{
    if entries.len() == 0 {
        Map::empty()
    } else {
        entries_map(entries.drop_last()).insert(entries.last().0@, entries.last().1)
    }
}

impl View for SymbolTable {
    type V = Map<Seq<char>, u16>;

    closed spec fn view(&self) -> Map<Seq<char>, u16> {
        entries_map(self.entries@)
    }
}

impl SymbolTable {
    /// An empty table.
    pub fn new() -> (t: Self)
        ensures
            t@ == Map::<Seq<char>, u16>::empty(),
    {
        SymbolTable { entries: Vec::new() }
    }

    /// Binds a name to an address, shadowing any earlier binding.
    pub fn insert(&mut self, name: String, value: u16)
        ensures
            final(self)@ == old(self)@.insert(name@, value),
    {
        let ghost pre = self.entries@;
        self.entries.push((name, value));
        proof {
            assert(self.entries@.drop_last() =~= pre);
        }
    }

    /// Looks a name up.
    pub fn get(&self, name: &str) -> (r: Option<u16>)
        ensures
            match r {
                Some(v) => self@.contains_key(name@) && self@[name@] == v,
                None => !self@.contains_key(name@),
            },
    {
        let mut k = self.entries.len();
        proof {
            assert(self.entries@.take(k as int) =~= self.entries@);
        }
        while k > 0
            invariant
                k <= self.entries@.len(),
                entries_map(self.entries@).contains_key(name@) == entries_map(
                    self.entries@.take(k as int),
                ).contains_key(name@),
                entries_map(self.entries@).contains_key(name@) ==> entries_map(self.entries@)[name@]
                    == entries_map(self.entries@.take(k as int))[name@],
            decreases k,
        {
            let k2 = k - 1;
            let ghost takek = self.entries@.take(k as int);
            proof {
                assert(takek.drop_last() =~= self.entries@.take(k2 as int));
                assert(takek.last() == self.entries@[k2 as int]);
            }
            if str_eq(self.entries[k2].0.as_str(), name) {
                return Some(self.entries[k2].1);
            }
            k = k2;
        }
        proof {
            assert(self.entries@.take(0) =~= Seq::<(String, u16)>::empty());
        }
        None
    }

    /// Tests whether a name is bound.
    pub fn contains(&self, name: &str) -> (r: bool)
        ensures
            r == self@.contains_key(name@),
    {
        match self.get(name) {
            Some(v) => true,
            None => false,
        }
    }
}

/// The predefined symbols of the Hack platform: the sixteen registers,
/// the five pointer names, the screen and the keyboard.
pub open spec fn predefined_symbols() -> Map<Seq<char>, u16> {
    Map::empty().insert("R0"@, 0).insert("R1"@, 1).insert("R2"@, 2).insert("R3"@, 3).insert(
        "R4"@,
        4,
    ).insert("R5"@, 5).insert("R6"@, 6).insert("R7"@, 7).insert("R8"@, 8).insert("R9"@, 9).insert(
        "R10"@,
        10,
    ).insert("R11"@, 11).insert("R12"@, 12).insert("R13"@, 13).insert("R14"@, 14).insert(
        "R15"@,
        15,
    ).insert("SCREEN"@, 16384).insert("KBD"@, 24576).insert("SP"@, 0).insert("LCL"@, 1).insert(
        "ARG"@,
        2,
    ).insert("THIS"@, 3).insert("THAT"@, 4)
}

/// Builds the table of predefined symbols.
pub fn create_symbol_table() -> (t: SymbolTable)
    ensures
        t@ == predefined_symbols(),
{
    let mut t = SymbolTable::new();
    t.insert(String::from_str("R0"), 0);
    t.insert(String::from_str("R1"), 1);
    t.insert(String::from_str("R2"), 2);
    t.insert(String::from_str("R3"), 3);
    t.insert(String::from_str("R4"), 4);
    t.insert(String::from_str("R5"), 5);
    t.insert(String::from_str("R6"), 6);
    t.insert(String::from_str("R7"), 7);
    t.insert(String::from_str("R8"), 8);
    t.insert(String::from_str("R9"), 9);
    t.insert(String::from_str("R10"), 10);
    t.insert(String::from_str("R11"), 11);
    t.insert(String::from_str("R12"), 12);
    t.insert(String::from_str("R13"), 13);
    t.insert(String::from_str("R14"), 14);
    t.insert(String::from_str("R15"), 15);
    t.insert(String::from_str("SCREEN"), 16384);
    t.insert(String::from_str("KBD"), 24576);
    t.insert(String::from_str("SP"), 0);
    t.insert(String::from_str("LCL"), 1);
    t.insert(String::from_str("ARG"), 2);
    t.insert(String::from_str("THIS"), 3);
    t.insert(String::from_str("THAT"), 4);
    t
}

} // verus!
