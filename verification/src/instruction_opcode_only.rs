//! An instruction line holding a mnemonic alone.

use vstd::prelude::*;
use crate::instruction_type::{listing_line, render_listing, SpecInstr};

verus! {

#[derive(Debug)]
pub struct InstructionOpcodeOnly {
    pub line: usize,
    pub addr: usize,
    pub opcode: String,
}

impl InstructionOpcodeOnly {
    pub fn new(line: usize, addr: usize, opcode: &str) -> (r: Self)
        ensures
            r.line == line,
            r.addr == addr,
            r.opcode@ == opcode@,
    {
        InstructionOpcodeOnly { line, addr, opcode: opcode.to_owned() }
    }

    /// The address-table line: address, empty label column, mnemonic and an
    /// empty operand column, tab-separated.
    pub fn to_line(&self) -> (r: String)
        ensures
            r@ == listing_line(
                SpecInstr {
                    line: self.line as nat,
                    addr: self.addr as nat,
                    label: None,
                    mnemonic: self.opcode@,
                    operand: None,
                },
            ),
    {
        render_listing(self.addr, None, self.opcode.as_str(), None)
    }
}

} // verus!
