//! An instruction line holding a mnemonic and an operand, with no label.

use vstd::prelude::*;
use crate::instruction_type::{listing_line, render_listing, SpecInstr};

verus! {

#[derive(Debug)]
pub struct InstructionOpcodeOperand {
    pub line: usize,
    pub addr: usize,
    pub opcode: String,
    pub operand: String,
}

impl InstructionOpcodeOperand {
    pub fn new(line: usize, addr: usize, opcode: &str, operand: &str) -> (r: Self)
        ensures
            r.line == line,
            r.addr == addr,
            r.opcode@ == opcode@,
            r.operand@ == operand@,
    {
        InstructionOpcodeOperand {
            line,
            addr,
            opcode: opcode.to_owned(),
            operand: operand.to_owned(),
        }
    }

    /// The address-table line: address, empty label column, mnemonic and
    /// operand, tab-separated.
    pub fn to_line(&self) -> (r: String)
        ensures
            r@ == listing_line(
                SpecInstr {
                    line: self.line as nat,
                    addr: self.addr as nat,
                    label: None,
                    mnemonic: self.opcode@,
                    operand: Some(self.operand@),
                },
            ),
    {
        render_listing(self.addr, None, self.opcode.as_str(), Some(&self.operand))
    }
}

} // verus!
