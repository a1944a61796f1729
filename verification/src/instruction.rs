//! A flat instruction record: one struct covering all three line shapes,
//! with optional label and operand, and the whole-program object code as a
//! single newline-joined string.

use vstd::prelude::*;
use crate::errors::{AsmError, SpecErr};
use crate::format_objcode::{
    item_views,
    records_build,
    records_input_wf,
    records_model,
    rec_items_of,
    RecItem,
};
use crate::instruction_type::{instr_views, listing_line, render_listing, InstructionType, SpecInstr};
use crate::opcode_table::OpcodeTable;
use crate::pass1::{pass1, pass1_model, Pass1Ok};
use crate::pass2::{obj_code_model, resolve_obj_code};
use crate::symbol_mapping::{symtab_bounded, symtab_view, SymbolMapping};
use crate::text::{push_str_chars, string_from_chars};

verus! {

/// One classified source line, with the label and the operand optional.
#[derive(Debug)]
pub struct Instruction {
    pub loc: usize,
    pub symbol: Option<String>,
    pub opcode: String,
    pub operand: Option<String>,
}

impl View for Instruction {
    type V = SpecInstr;

    open spec fn view(&self) -> SpecInstr {
        SpecInstr {
            line: 0,
            addr: self.loc as nat,
            label: match self.symbol {
                Some(ref s) => Some(s@),
                None => None,
            },
            mnemonic: self.opcode@,
            operand: match self.operand {
                Some(ref o) => Some(o@),
                None => None,
            },
        }
    }
}

/// The views of a whole instruction list, in order.
pub open spec fn flat_views(s: Seq<Instruction>) -> Seq<SpecInstr> {
    s.map_values(|x: Instruction| x@)
}

/// The same instruction with its source line number forgotten; this record
/// does not keep one.
pub open spec fn forget_line(si: SpecInstr) -> SpecInstr {
    SpecInstr { line: 0, addr: si.addr, label: si.label, mnemonic: si.mnemonic, operand: si.operand }
}

/// The views of a `(symbol, address)` table, in order.
pub open spec fn pair_views(s: Seq<(String, usize)>) -> Seq<(Seq<char>, nat)> {
    s.map_values(|p: (String, usize)| (p.0@, p.1 as nat))
}

/// The records joined by single newlines.
pub open spec fn join_lines(ls: Seq<Seq<char>>) -> Seq<char>
    decreases ls.len(),
{
    if ls.len() == 0 {
        seq![]
    } else if ls.len() == 1 {
        ls[0]
    } else {
        join_lines(ls.drop_last()) + seq!['\n'] + ls.last()
    }
}

impl Instruction {
    pub fn new(loc: usize, symbol: Option<String>, opcode: String, operand: Option<String>) -> (r:
        Self)
        ensures
            r.loc == loc,
            r.symbol == symbol,
            r.opcode == opcode,
            r.operand == operand,
    {
        Instruction { loc, symbol, opcode, operand }
    }

    /// The address-table line: address, label, mnemonic and operand,
    /// tab-separated; absent label and operand leave their column empty.
    pub fn to_line(&self) -> (r: String)
        ensures
            r@ == listing_line(self@),
    {
        let symbol = match &self.symbol {
            Some(s) => Some(s),
            None => None,
        };
        let operand = match &self.operand {
            Some(o) => Some(o),
            None => None,
        };
        render_listing(self.loc, symbol, self.opcode.as_str(), operand)
    }

    /// This instruction's object code against a plain `(symbol, address)`
    /// table, resolved exactly as pass 2 resolves it.
    pub fn obj_code(&self, symtab: &Vec<(String, usize)>, table: &OpcodeTable) -> (r: Result<
        String,
        AsmError,
    >)
        requires
            symtab_bounded(pair_views(symtab@)),
        ensures
            ({
                let s = obj_code_model(0, self.opcode@, self@.operand, pair_views(symtab@), table@);
                match r {
                    Ok(code) => s == Ok::<Seq<char>, SpecErr>(code@),
                    Err(e) => s == Err::<Seq<char>, SpecErr>(e@),
                }
            }),
    {
        let mut sm: Vec<SymbolMapping> = Vec::new();
        let mut i: usize = 0;
        while i < symtab.len()
            invariant
                i <= symtab@.len(),
                symtab_view(sm@) =~= pair_views(symtab@).subrange(0, i as int),
            decreases symtab@.len() - i,
        {
            sm.push(SymbolMapping::new(symtab[i].0.as_str(), symtab[i].1));
            proof {
                assert(symtab_view(sm@) =~= pair_views(symtab@).subrange(0, i + 1));
            }
            i += 1;
        }
        proof {
            assert(pair_views(symtab@).subrange(0, symtab@.len() as int) =~= pair_views(symtab@));
        }
        let operand = match &self.operand {
            Some(o) => Some(o),
            None => None,
        };
        resolve_obj_code(0, self.opcode.as_str(), operand, &sm, table)
    }

    /// Classifies and addresses raw source lines, as pass 1 does, into flat
    /// instruction records.
    pub fn parse_into_vec(lines: &Vec<String>) -> (r: Result<Vec<Instruction>, AsmError>)
        ensures
            ({
                let m = pass1_model(lines.deep_view());
                match r {
                    Ok(v) => m is Ok && flat_views(v@) == m->Ok_0.instrs.map_values(
                        |si: SpecInstr| forget_line(si),
                    ),
                    Err(e) => m == Err::<Pass1Ok, SpecErr>(e@),
                }
            }),
    {
        let (instructions, _symtab) = match pass1(lines) {
            Ok(p) => p,
            Err(e) => {
                return Err(e);
            },
        };
        let ghost iv = instr_views(instructions@);
        let n = instructions.len();
        let mut out: Vec<Instruction> = Vec::new();
        let mut i: usize = 0;
        while i < n
            invariant
                i <= n,
                n == instructions@.len(),
                out@.len() == i,
                forall|j: int| 0 <= j < i ==> (#[trigger] out@[j])@ == forget_line(iv[j]),
            decreases n - i,
        {
            let ins = match &instructions[i] {
                InstructionType::SymbolOpcodeOperand(x) => Instruction::new(
                    x.addr,
                    Some(x.symbol.clone()),
                    x.opcode.clone(),
                    Some(x.operand.clone()),
                ),
                InstructionType::OpcodeOperand(x) => Instruction::new(
                    x.addr,
                    None,
                    x.opcode.clone(),
                    Some(x.operand.clone()),
                ),
                InstructionType::OpcodeOnly(x) => Instruction::new(
                    x.addr,
                    None,
                    x.opcode.clone(),
                    None,
                ),
            };
            out.push(ins);
            i += 1;
        }
        proof {
            assert(flat_views(out@) =~~= iv.map_values(|si: SpecInstr| forget_line(si)));
        }
        Ok(out)
    }

    /// Packs the instructions and their object codes into the object
    /// program: Header, Text and End records joined by newlines, under the
    /// canonical 60-hex-digit Text-record cap.
    pub fn generate_objcode(instructions: Vec<Instruction>, obj_codes: Vec<String>) -> (r: String)
        requires
            records_input_wf(flat_views(instructions@), obj_codes.deep_view()),
        ensures
            r@ == join_lines(records_model(flat_views(instructions@), obj_codes.deep_view())),
    {
        let ghost iv = flat_views(instructions@);
        let ghost cd = obj_codes.deep_view();
        let n = instructions.len();
        let mut items: Vec<RecItem> = Vec::new();
        let mut i: usize = 0;
        while i < n
            invariant
                i <= n,
                n == instructions@.len(),
                obj_codes@.len() == n,
                cd == obj_codes.deep_view(),
                item_views(items@) =~~= rec_items_of(iv, cd).subrange(0, i as int),
            decreases n - i,
        {
            let x = &instructions[i];
            let label = match &x.symbol {
                Some(s) => Some(s.clone()),
                None => None,
            };
            items.push(
                RecItem {
                    addr: x.loc,
                    mnemonic: x.opcode.clone(),
                    label,
                    code: obj_codes[i].clone(),
                },
            );
            proof {
                assert(item_views(items@) =~~= rec_items_of(iv, cd).subrange(0, i + 1));
            }
            i += 1;
        }
        proof {
            assert(item_views(items@) =~~= rec_items_of(iv, cd));
        }
        let recs = records_build(&items);
        let ghost rl = recs.deep_view();
        let m = recs.len();
        let mut v: Vec<char> = Vec::new();
        let mut j: usize = 0;
        while j < m
            invariant
                j <= m,
                m == recs@.len(),
                rl == recs.deep_view(),
                v@ == join_lines(rl.subrange(0, j as int)),
            decreases m - j,
        {
            if j > 0 {
                v.push('\n');
            }
            push_str_chars(&mut v, recs[j].as_str());
            proof {
                let pre = rl.subrange(0, j + 1);
                assert(pre.drop_last() =~= rl.subrange(0, j as int));
                assert(pre.last() == rl[j as int]);
                if j == 0 {
                    assert(v@ =~= join_lines(pre));
                } else {
                    assert(v@ =~= join_lines(pre.drop_last()) + seq!['\n'] + pre.last());
                }
            }
            j += 1;
        }
        proof {
            assert(rl.subrange(0, m as int) =~= rl);
        }
        string_from_chars(&v)
    }
}

} // verus!
