//! A two-pass assembler for a simplified 16-bit SIC-style machine.
//!
//! Source lines are classified into labeled, unlabeled and bare instructions;
//! pass 1 assigns each instruction an address and builds the symbol table,
//! pass 2 resolves operands into hex object code, and the record formatter
//! packs the object code into Header/Text/End object records.
#![verifier::loop_isolation(false)]

use vstd::prelude::*;

pub mod errors;
pub mod format_objcode;
pub mod instruction;
pub mod laws;
pub mod instruction_opcode_only;
pub mod instruction_opcode_operand;
pub mod instruction_symbol_opcode_operand;
pub mod instruction_type;
pub mod numerals;
pub mod opcode_table;
pub mod operands;
pub mod pass1;
pub mod pass2;
pub mod symbol_mapping;
pub mod text;

use errors::{AsmError, SpecErr};
use format_objcode::{format_objcode, records_input_wf, records_model, rec_items_of};
use instruction_type::{instr_views, listing_line, InstructionType, SpecInstr};
use opcode_table::OpcodeTable;
use pass1::{lemma_pass1_chain, pass1, pass1_model, Pass1Ok};
use pass2::{code_resolves, lemma_obj_code_props, lemma_pass2_rest_codes, pass2, pass2_model};
use symbol_mapping::{symtab_view, SymbolMapping};
use text::{push_str_chars, string_from_chars};

verus! {

/// The address-table line of every instruction, in order.
pub open spec fn listing_lines(instrs: Seq<SpecInstr>) -> Seq<Seq<char>> {
    instrs.map_values(|i: SpecInstr| listing_line(i))
}

/// The address-and-object-code table: each listing line, a tab, and the
/// instruction's object code.
pub open spec fn output_lines_model(instrs: Seq<SpecInstr>, codes: Seq<Seq<char>>) -> Seq<
    Seq<char>,
> {
    Seq::new(instrs.len(), |i: int| listing_line(instrs[i]) + seq!['\t'] + codes[i])
}

/// What the two passes produce always satisfies the record formatter's
/// requirements: bounded addresses, whole-byte codes, and codes that fit the
/// gap to the next instruction's address.
pub proof fn lemma_passes_wf(lines: Seq<Seq<char>>, table: Seq<(Seq<char>, u8)>)
    requires
        pass1_model(lines) is Ok,
        pass2_model(
            pass1_model(lines)->Ok_0.instrs,
            pass1_model(lines)->Ok_0.symtab,
            table,
        ) is Ok,
    ensures
        records_input_wf(
            pass1_model(lines)->Ok_0.instrs,
            pass2_model(pass1_model(lines)->Ok_0.instrs, pass1_model(lines)->Ok_0.symtab, table)->Ok_0,
        ),
{
    let o = pass1_model(lines)->Ok_0;
    let codes = pass2_model(o.instrs, o.symtab, table)->Ok_0;
    lemma_pass1_chain(lines);
    lemma_pass2_rest_codes(o.instrs, 0, o.symtab, table);
    let items = rec_items_of(o.instrs, codes);
    assert forall|i: int| 0 <= i < items.len() implies (#[trigger] items[i]).code.len() % 2
        == 0 by {
        assert(code_resolves(o.instrs, o.symtab, table, i, codes[i]));
        lemma_obj_code_props(
            o.instrs[i].line,
            o.instrs[i].mnemonic,
            o.instrs[i].operand,
            o.symtab,
            table,
        );
    }
    assert forall|i: int|
        0 <= i < items.len() - 1 implies (#[trigger] items[i]).addr + items[i].code.len() / 2
        <= items[i + 1].addr by {
        assert(code_resolves(o.instrs, o.symtab, table, i, codes[i]));
        lemma_obj_code_props(
            o.instrs[i].line,
            o.instrs[i].mnemonic,
            o.instrs[i].operand,
            o.symtab,
            table,
        );
        if i == 0 {
            assert(o.instrs[0].mnemonic == "START"@);
            assert(codes[0].len() == 0);
            assert(o.instrs[1].addr == o.instrs[0].addr);
        } else {
            assert(o.instrs[i + 1].addr == o.instrs[i].addr + crate::operands::advance_val(
                o.instrs[i].mnemonic,
                o.instrs[i].operand,
            ));
        }
    }
}

/// Everything one assembly run produces: the addressed instructions, the
/// symbol table, the per-instruction object code, and the three output
/// artifacts as line lists.
#[derive(Debug)]
pub struct SicArtifacts {
    pub instructions: Vec<InstructionType>,
    pub symtab: Vec<SymbolMapping>,
    pub objcodes: Vec<String>,
    pub loc_lines: Vec<String>,
    pub output_lines: Vec<String>,
    pub object_lines: Vec<String>,
}

/// Runs the whole two-pass assembly over the raw source lines with the given
/// opcode table: pass 1, pass 2, and the record formatter, producing the
/// address table, the address-and-object-code table and the object program.
pub fn parse_sic(lines: &Vec<String>, table: &OpcodeTable) -> (r: Result<SicArtifacts, AsmError>)
    ensures
        ({
            let m1 = pass1_model(lines.deep_view());
            match r {
                Err(e) => m1 == Err::<Pass1Ok, SpecErr>(e@) || (m1 is Ok && pass2_model(
                    m1->Ok_0.instrs,
                    m1->Ok_0.symtab,
                    table@,
                ) == Err::<Seq<Seq<char>>, SpecErr>(e@)),
                Ok(a) => {
                    &&& m1 is Ok
                    &&& pass2_model(m1->Ok_0.instrs, m1->Ok_0.symtab, table@) is Ok
                    &&& instr_views(a.instructions@) == m1->Ok_0.instrs
                    &&& symtab_view(a.symtab@) == m1->Ok_0.symtab
                    &&& a.objcodes.deep_view() == pass2_model(
                        m1->Ok_0.instrs,
                        m1->Ok_0.symtab,
                        table@,
                    )->Ok_0
                    &&& a.loc_lines.deep_view() == listing_lines(m1->Ok_0.instrs)
                    &&& a.output_lines.deep_view() == output_lines_model(
                        m1->Ok_0.instrs,
                        a.objcodes.deep_view(),
                    )
                    &&& a.object_lines.deep_view() == records_model(
                        m1->Ok_0.instrs,
                        a.objcodes.deep_view(),
                    )
                },
            }
        }),
{
    let ghost ld = lines.deep_view();
    let (instructions, symtab) = match pass1(lines) {
        Ok(p) => p,
        Err(e) => {
            return Err(e);
        },
    };
    proof {
        lemma_pass1_chain(ld);
    }
    let objcodes = match pass2(&instructions, &symtab, table) {
        Ok(c) => c,
        Err(e) => {
            return Err(e);
        },
    };
    let ghost iv = instr_views(instructions@);
    let ghost cd = objcodes.deep_view();
    proof {
        lemma_pass2_rest_codes(iv, 0, symtab_view(symtab@), table@);
        assert(cd.len() == iv.len());
    }
    let n = instructions.len();
    let mut loc_lines: Vec<String> = Vec::new();
    let mut i: usize = 0;
    while i < n
        invariant
            i <= n,
            n == instructions@.len(),
            loc_lines.deep_view() =~~= listing_lines(iv).subrange(0, i as int),
        decreases n - i,
    {
        let ghost before = loc_lines.deep_view();
        loc_lines.push(instructions[i].to_line());
        proof {
            assert(loc_lines.deep_view() =~~= before.push(listing_line(iv[i as int])));
            assert(loc_lines.deep_view() =~~= listing_lines(iv).subrange(0, i + 1));
        }
        i += 1;
    }
    proof {
        assert(listing_lines(iv).subrange(0, n as int) =~~= listing_lines(iv));
    }
    let mut output_lines: Vec<String> = Vec::new();
    i = 0;
    while i < n
        invariant
            i <= n,
            n == instructions@.len(),
            objcodes@.len() == n,
            cd == objcodes.deep_view(),
            output_lines.deep_view() =~~= output_lines_model(iv, cd).subrange(0, i as int),
        decreases n - i,
    {
        let ghost before = output_lines.deep_view();
        let listing = instructions[i].to_line();
        let mut v: Vec<char> = Vec::new();
        push_str_chars(&mut v, listing.as_str());
        v.push('\t');
        push_str_chars(&mut v, objcodes[i].as_str());
        proof {
            assert(v@ =~= listing_line(iv[i as int]) + seq!['\t'] + cd[i as int]);
        }
        output_lines.push(string_from_chars(&v));
        proof {
            assert(output_lines.deep_view() =~~= before.push(
                listing_line(iv[i as int]) + seq!['\t'] + cd[i as int],
            ));
            assert(output_lines.deep_view() =~~= output_lines_model(iv, cd).subrange(0, i + 1));
        }
        i += 1;
    }
    proof {
        assert(output_lines_model(iv, cd).subrange(0, n as int) =~~= output_lines_model(iv, cd));
        lemma_passes_wf(ld, table@);
    }
    let codes_copy = text::clone_strings(&objcodes);
    let object_lines = format_objcode(&instructions, codes_copy);
    Ok(
        SicArtifacts {
            instructions,
            symtab,
            objcodes,
            loc_lines,
            output_lines,
            object_lines,
        },
    )
}

} // verus!
