//! One symbol-table entry: a label and the address assigned to it.

use vstd::prelude::*;
use crate::numerals::hex_fmt;
use crate::text::{push_str_chars, str_eq, string_from_chars};

verus! {

/// A label together with the address pass 1 assigned to its defining line.
#[derive(Debug)]
pub struct SymbolMapping {
    pub symbol: String,
    pub addr: usize,
}

impl View for SymbolMapping {
    type V = (Seq<char>, nat);

    open spec fn view(&self) -> (Seq<char>, nat) {
        (self.symbol@, self.addr as nat)
    }
}

/// The views of a whole symbol table, in order.
pub open spec fn symtab_view(s: Seq<SymbolMapping>) -> Seq<(Seq<char>, nat)> {
    s.map_values(|m: SymbolMapping| m@)
}

/// The address of the first entry named `name`; earlier definitions win.
pub open spec fn spec_find_symbol(t: Seq<(Seq<char>, nat)>, name: Seq<char>) -> Option<nat>
    decreases t.len(),
{
    if t.len() == 0 {
        None
    } else if t[0].0 == name {
        Some(t[0].1)
    } else {
        spec_find_symbol(t.drop_first(), name)
    }
}

/// Every address in the table lies in the 15-bit address range.
pub open spec fn symtab_bounded(t: Seq<(Seq<char>, nat)>) -> bool {
    forall|i: int| 0 <= i < t.len() ==> (#[trigger] t[i]).1 <= 0x7fff
}

pub proof fn lemma_find_symbol_bounded(t: Seq<(Seq<char>, nat)>, name: Seq<char>)
    requires
        symtab_bounded(t),
        spec_find_symbol(t, name) is Some,
    ensures
        spec_find_symbol(t, name)->0 <= 0x7fff,
    decreases t.len(),
{
    if t.len() > 0 && t[0].0 != name {
        assert(symtab_bounded(t.drop_first()));
        lemma_find_symbol_bounded(t.drop_first(), name);
    }
}

proof fn lemma_find_symbol_skip(t: Seq<(Seq<char>, nat)>, name: Seq<char>, i: int)
    requires
        0 <= i < t.len(),
        t[i].0 != name,
    ensures
        spec_find_symbol(t.skip(i), name) == spec_find_symbol(t.skip(i + 1), name),
{
    assert(t.skip(i).len() > 0);
    assert(t.skip(i)[0] == t[i]);
    assert(t.skip(i).drop_first() =~= t.skip(i + 1));
}

/// Looks `name` up in the symbol table; the first definition wins.
pub fn find_symbol(symtab: &Vec<SymbolMapping>, name: &str) -> (r: Option<usize>)
    ensures
        match r {
            Some(a) => spec_find_symbol(symtab_view(symtab@), name@) == Some(a as nat),
            None => spec_find_symbol(symtab_view(symtab@), name@) is None,
        },
{
    let ghost t = symtab_view(symtab@);
    let mut i: usize = 0;
    proof {
        assert(t.skip(0) =~= t);
    }
    while i < symtab.len()
        invariant
            t == symtab_view(symtab@),
            i <= symtab@.len(),
            t.len() == symtab@.len(),
            spec_find_symbol(t, name@) == spec_find_symbol(t.skip(i as int), name@),
        decreases symtab@.len() - i,
    {
        if str_eq(symtab[i].symbol.as_str(), name) {
            proof {
                assert(t.skip(i as int)[0] == t[i as int]);
            }
            return Some(symtab[i].addr);
        }
        proof {
            lemma_find_symbol_skip(t, name@, i as int);
        }
        i += 1;
    }
    proof {
        assert(t.skip(symtab@.len() as int) =~= Seq::<(Seq<char>, nat)>::empty());
    }
    None
}

impl SymbolMapping {
    pub fn new(symbol: &str, addr: usize) -> (r: Self)
        ensures
            r.symbol@ == symbol@,
            r.addr == addr,
            r@ == (symbol@, addr as nat),
    {
        SymbolMapping { symbol: symbol.to_owned(), addr }
    }

    /// The symbol-table listing line: the name, a tab, and the address as
    /// four upper-case hex digits.
    pub fn to_line(&self) -> (r: String)
        ensures
            r@ == self.symbol@ + seq!['\t'] + hex_fmt(self.addr as nat, 4),
    {
        let mut out: Vec<char> = Vec::new();
        push_str_chars(&mut out, self.symbol.as_str());
        out.push('\t');
        crate::numerals::push_hex(&mut out, self.addr, 4);
        proof {
            assert(out@ =~= self.symbol@ + seq!['\t'] + hex_fmt(self.addr as nat, 4));
        }
        string_from_chars(&out)
    }
}

} // verus!
