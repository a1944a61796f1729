//! An instruction line holding a label, a mnemonic and an operand.

use vstd::prelude::*;
use crate::instruction_type::{listing_line, render_listing, SpecInstr};

verus! {

#[derive(Debug)]
pub struct InstructionSymbolOpcodeOperand {
    pub line: usize,
    pub addr: usize,
    pub symbol: String,
    pub opcode: String,
    pub operand: String,
}

impl InstructionSymbolOpcodeOperand {
    pub fn new(line: usize, addr: usize, symbol: &str, opcode: &str, operand: &str) -> (r: Self)
        ensures
            r.line == line,
            r.addr == addr,
            r.symbol@ == symbol@,
            r.opcode@ == opcode@,
            r.operand@ == operand@,
    {
        InstructionSymbolOpcodeOperand {
            line,
            addr,
            symbol: symbol.to_owned(),
            opcode: opcode.to_owned(),
            operand: operand.to_owned(),
        }
    }

    /// The address-table line: address, label, mnemonic and operand,
    /// tab-separated.
    pub fn to_line(&self) -> (r: String)
        ensures
            r@ == listing_line(
                SpecInstr {
                    line: self.line as nat,
                    addr: self.addr as nat,
                    label: Some(self.symbol@),
                    mnemonic: self.opcode@,
                    operand: Some(self.operand@),
                },
            ),
    {
        render_listing(self.addr, Some(&self.symbol), self.opcode.as_str(), Some(&self.operand))
    }
}

} // verus!
