//! The classified instruction: one of three mutually exclusive shapes,
//! together with its mathematical model and its listing line.

use vstd::prelude::*;
use crate::instruction_opcode_only::InstructionOpcodeOnly;
use crate::instruction_opcode_operand::InstructionOpcodeOperand;
use crate::instruction_symbol_opcode_operand::InstructionSymbolOpcodeOperand;
use crate::numerals::hex_fmt;
use crate::text::{push_str_chars, string_from_chars};

verus! {

/// The mathematical model of one classified source line.
pub ghost struct SpecInstr {
    /// 1-based source line number.
    pub line: nat,
    /// The address assigned by pass 1.
    pub addr: nat,
    /// The label, for lines that define a symbol.
    pub label: Option<Seq<char>>,
    /// The upper-cased mnemonic.
    pub mnemonic: Seq<char>,
    /// The raw operand text, where present.
    pub operand: Option<Seq<char>>,
}

/// One classified source line: label+mnemonic+operand, mnemonic+operand, or
/// mnemonic alone.
#[derive(Debug)]
pub enum InstructionType {
    SymbolOpcodeOperand(InstructionSymbolOpcodeOperand),
    OpcodeOperand(InstructionOpcodeOperand),
    OpcodeOnly(InstructionOpcodeOnly),
}

impl View for InstructionType {
    type V = SpecInstr;

    open spec fn view(&self) -> SpecInstr {
        match self {
            InstructionType::SymbolOpcodeOperand(i) => SpecInstr {
                line: i.line as nat,
                addr: i.addr as nat,
                label: Some(i.symbol@),
                mnemonic: i.opcode@,
                operand: Some(i.operand@),
            },
            InstructionType::OpcodeOperand(i) => SpecInstr {
                line: i.line as nat,
                addr: i.addr as nat,
                label: None,
                mnemonic: i.opcode@,
                operand: Some(i.operand@),
            },
            InstructionType::OpcodeOnly(i) => SpecInstr {
                line: i.line as nat,
                addr: i.addr as nat,
                label: None,
                mnemonic: i.opcode@,
                operand: None,
            },
        }
    }
}

/// The views of a whole instruction list, in order.
pub open spec fn instr_views(s: Seq<InstructionType>) -> Seq<SpecInstr> {
    s.map_values(|i: InstructionType| i@)
}

/// The address-table line for one instruction: the address as four hex
/// digits, the label, the mnemonic and the operand, tab-separated; absent
/// label and operand leave their column empty.
pub open spec fn listing_line(ins: SpecInstr) -> Seq<char> {
    hex_fmt(ins.addr, 4) + seq!['\t'] + (match ins.label {
        Some(l) => l,
        None => seq![],
    }) + seq!['\t'] + ins.mnemonic + seq!['\t'] + (match ins.operand {
        Some(o) => o,
        None => seq![],
    })
}

/// Renders the listing line for the given pieces of one instruction.
pub(crate) fn render_listing(
    addr: usize,
    label: Option<&String>,
    mnemonic: &str,
    operand: Option<&String>,
) -> (r: String)
    ensures
        r@ == listing_line(
            SpecInstr {
                line: 0,
                addr: addr as nat,
                label: match label {
                    Some(l) => Some(l@),
                    None => None,
                },
                mnemonic: mnemonic@,
                operand: match operand {
                    Some(o) => Some(o@),
                    None => None,
                },
            },
        ),
{
    let mut out: Vec<char> = Vec::new();
    crate::numerals::push_hex(&mut out, addr, 4);
    out.push('\t');
    match label {
        Some(l) => push_str_chars(&mut out, l.as_str()),
        None => (),
    }
    out.push('\t');
    push_str_chars(&mut out, mnemonic);
    out.push('\t');
    match operand {
        Some(o) => push_str_chars(&mut out, o.as_str()),
        None => (),
    }
    proof {
        let lv = match label {
            Some(l) => Some(l@),
            None => None,
        };
        let ov = match operand {
            Some(o) => Some(o@),
            None => None,
        };
        assert(out@ =~= listing_line(
            SpecInstr {
                line: 0,
                addr: addr as nat,
                label: lv,
                mnemonic: mnemonic@,
                operand: ov,
            },
        ));
    }
    string_from_chars(&out)
}

impl InstructionType {
    /// The address-table line for this instruction. `listing_line` does not
    /// depend on the line number, so the result is determined by the view.
    pub fn to_line(&self) -> (r: String)
        ensures
            r@ == listing_line(self@),
    {
        match self {
            InstructionType::SymbolOpcodeOperand(i) => render_listing(
                i.addr,
                Some(&i.symbol),
                i.opcode.as_str(),
                Some(&i.operand),
            ),
            InstructionType::OpcodeOperand(i) => render_listing(
                i.addr,
                None,
                i.opcode.as_str(),
                Some(&i.operand),
            ),
            InstructionType::OpcodeOnly(i) => render_listing(i.addr, None, i.opcode.as_str(), None),
        }
    }
}

} // verus!
