//! The mnemonic-to-opcode table. It is constant configuration handed to the
//! assembler by the caller, which lets tests substitute a reduced set.

use vstd::prelude::*;
use crate::text::str_eq;

verus! {

/// An ordered mapping from mnemonic to its one-byte machine opcode.
pub struct OpcodeTable {
    entries: Vec<(String, u8)>,
}

impl View for OpcodeTable {
    type V = Seq<(Seq<char>, u8)>;

    closed spec fn view(&self) -> Seq<(Seq<char>, u8)> {
        self.entries@.map_values(|e: (String, u8)| (e.0@, e.1))
    }
}

/// The opcode of the first entry for `m`; earlier entries win.
pub open spec fn spec_lookup(t: Seq<(Seq<char>, u8)>, m: Seq<char>) -> Option<u8>
    decreases t.len(),
{
    if t.len() == 0 {
        None
    } else if t[0].0 == m {
        Some(t[0].1)
    } else {
        spec_lookup(t.drop_first(), m)
    }
}

proof fn lemma_lookup_skip(t: Seq<(Seq<char>, u8)>, m: Seq<char>, i: int)
    requires
        0 <= i < t.len(),
        t[i].0 != m,
    ensures
        spec_lookup(t.skip(i), m) == spec_lookup(t.skip(i + 1), m),
{
    assert(t.skip(i).len() > 0);
    assert(t.skip(i)[0] == t[i]);
    assert(t.skip(i).drop_first() =~= t.skip(i + 1));
}

impl OpcodeTable {
    pub fn new() -> (r: Self)
        ensures
            r@ =~= Seq::<(Seq<char>, u8)>::empty(),
    {
        OpcodeTable { entries: Vec::new() }
    }

    /// Appends one mnemonic-to-opcode entry.
    pub fn insert(&mut self, mnemonic: &str, code: u8)
        ensures
            final(self)@ =~= old(self)@ + seq![(mnemonic@, code)],
    {
        self.entries.push((mnemonic.to_owned(), code));
    }

    /// Looks a mnemonic up; the first matching entry wins.
    pub fn lookup(&self, mnemonic: &str) -> (r: Option<u8>)
        ensures
            r == spec_lookup(self@, mnemonic@),
    {
        let ghost t = self@;
        let mut i: usize = 0;
        proof {
            assert(t.skip(0) =~= t);
        }
        while i < self.entries.len()
            invariant
                t == self@,
                i <= self.entries@.len(),
                t.len() == self.entries@.len(),
                spec_lookup(t, mnemonic@) == spec_lookup(t.skip(i as int), mnemonic@),
            decreases self.entries@.len() - i,
        {
            if str_eq(self.entries[i].0.as_str(), mnemonic) {
                proof {
                    assert(t.skip(i as int)[0] == t[i as int]);
                }
                return Some(self.entries[i].1);
            }
            proof {
                lemma_lookup_skip(t, mnemonic@, i as int);
            }
            i += 1;
        }
        proof {
            assert(t.skip(self.entries@.len() as int) =~= Seq::<(Seq<char>, u8)>::empty());
        }
        None
    }
}

} // verus!
