//! Pass 1: walks the source lines in order, classifies each significant
//! line, assigns it the current location-counter value, advances the counter
//! per directive, and records every labeled line in the symbol table.

use vstd::prelude::*;
use crate::errors::{AsmError, SpecErr};
use crate::instruction_opcode_only::InstructionOpcodeOnly;
use crate::instruction_opcode_operand::InstructionOpcodeOperand;
use crate::instruction_symbol_opcode_operand::InstructionSymbolOpcodeOperand;
use crate::instruction_type::{instr_views, InstructionType, SpecInstr};
use crate::operands::{advance_amount, sat_cap, spec_advance};
use crate::symbol_mapping::{symtab_view, SymbolMapping};
use crate::text::{is_comment_line, line_is_comment, split_fields, split_ws, upper, upper_chars};

verus! {

/// What a successful pass 1 produces: the addressed instruction list and the
/// symbol table, both in source order.
pub ghost struct Pass1Ok {
    pub instrs: Seq<SpecInstr>,
    pub symtab: Seq<(Seq<char>, nat)>,
}

/// A line takes part in assembly when it is neither a comment nor blank.
pub open spec fn is_significant(line: Seq<char>) -> bool {
    !is_comment_line(line) && split_ws(upper(line)).len() != 0
}

/// The index of the first significant line at or after `i`; the length of
/// `lines` when there is none.
pub open spec fn first_significant(lines: Seq<Seq<char>>, i: int) -> int
    decreases lines.len() - i
        when 0 <= i <= lines.len()
{
    if i >= lines.len() {
        i
    } else if is_significant(lines[i]) {
        i
    } else {
        first_significant(lines, i + 1)
    }
}

/// Pass 1 over the lines from `i` on, with the location counter at `addr`.
/// Comment and blank lines are skipped; a counter already past the 15-bit
/// address range fails at the line it would have addressed; otherwise the
/// line is classified by field count, addressed, recorded in the symbol
/// table when labeled, and the counter advances by its directive's rule.
pub open spec fn pass1_rest(lines: Seq<Seq<char>>, i: int, addr: nat) -> Result<Pass1Ok, SpecErr>
    decreases lines.len() - i
        when 0 <= i <= lines.len()
{
    if i >= lines.len() {
        Ok(Pass1Ok { instrs: seq![], symtab: seq![] })
    } else if !is_significant(lines[i]) {
        pass1_rest(lines, i + 1, addr)
    } else if addr > 0x7fff {
        Err(SpecErr::Overflow { line: (i + 1) as nat, text: lines[i] })
    } else {
        let fields = split_ws(upper(lines[i]));
        if fields.len() > 3 {
            Err(SpecErr::InvalidShape { line: (i + 1) as nat, text: lines[i] })
        } else {
            let label = if fields.len() == 3 {
                Some(fields[0])
            } else {
                None
            };
            let m = if fields.len() == 3 {
                fields[1]
            } else {
                fields[0]
            };
            let operand = if fields.len() == 3 {
                Some(fields[2])
            } else if fields.len() == 2 {
                Some(fields[1])
            } else {
                None
            };
            let ins = SpecInstr { line: (i + 1) as nat, addr, label, mnemonic: m, operand };
            match spec_advance(m, operand, (i + 1) as nat, lines[i]) {
                Err(e) => Err(e),
                Ok(adv) => match pass1_rest(lines, i + 1, addr + adv) {
                    Err(e) => Err(e),
                    Ok(rest) => Ok(
                        Pass1Ok {
                            instrs: seq![ins] + rest.instrs,
                            symtab: (if fields.len() == 3 {
                                seq![(fields[0], addr)]
                            } else {
                                seq![]
                            }) + rest.symtab,
                        },
                    ),
                },
            }
        }
    }
}

/// The whole of pass 1: the first significant line must be a three-field
/// `START` directive whose operand, a base-16 literal, seeds the location
/// counter; the remaining lines follow `pass1_rest`. The `START` line's
/// label names the program and is not entered into the symbol table.
pub open spec fn pass1_model(lines: Seq<Seq<char>>) -> Result<Pass1Ok, SpecErr> {
    let k = first_significant(lines, 0);
    if k >= lines.len() {
        Err(SpecErr::MissingStart)
    } else {
        let fields = split_ws(upper(lines[k]));
        if fields.len() != 3 || fields[1] != "START"@ {
            Err(SpecErr::MissingStart)
        } else if !(crate::numerals::is_hex_str(fields[2]) && crate::numerals::hex_val(fields[2])
            <= usize::MAX) {
            Err(SpecErr::BadNumber { line: (k + 1) as nat, text: lines[k] })
        } else if crate::numerals::hex_val(fields[2]) > 0x7fff {
            Err(SpecErr::Overflow { line: (k + 1) as nat, text: lines[k] })
        } else {
            let addr = crate::numerals::hex_val(fields[2]);
            let ins = SpecInstr {
                line: (k + 1) as nat,
                addr,
                label: Some(fields[0]),
                mnemonic: fields[1],
                operand: Some(fields[2]),
            };
            match pass1_rest(lines, k + 1, addr) {
                Err(e) => Err(e),
                Ok(rest) => Ok(
                    Pass1Ok { instrs: seq![ins] + rest.instrs, symtab: rest.symtab },
                ),
            }
        }
    }
}

/// The first significant line lies between `i` and the end of the input.
pub proof fn lemma_first_significant_range(lines: Seq<Seq<char>>, i: int)
    requires
        0 <= i <= lines.len(),
    ensures
        i <= first_significant(lines, i) <= lines.len(),
    decreases lines.len() - i,
{
    if i < lines.len() && !is_significant(lines[i]) {
        lemma_first_significant_range(lines, i + 1);
    }
}

/// What pass 1 guarantees of every instruction list it accepts from `i` on:
/// addresses stay in the 15-bit range, every line's advance is defined, each
/// address is the previous one plus its advance, the first instruction sits
/// at the counter value handed in, and the symbol table stays bounded.
pub proof fn lemma_pass1_rest_chain(lines: Seq<Seq<char>>, i: int, addr: nat)
    requires
        0 <= i <= lines.len(),
        pass1_rest(lines, i, addr) is Ok,
    ensures
        ({
            let o = pass1_rest(lines, i, addr)->Ok_0;
            &&& forall|j: int| 0 <= j < o.instrs.len() ==> (#[trigger] o.instrs[j]).addr <= 0x7fff
            &&& forall|j: int|
                0 <= j < o.instrs.len() ==> crate::operands::advance_ok(
                    (#[trigger] o.instrs[j]).mnemonic,
                    o.instrs[j].operand,
                )
            &&& forall|j: int|
                0 <= j < o.instrs.len() - 1 ==> (#[trigger] o.instrs[j + 1]).addr == o.instrs[j].addr
                    + crate::operands::advance_val(o.instrs[j].mnemonic, o.instrs[j].operand)
            &&& o.instrs.len() > 0 ==> o.instrs[0].addr == addr
            &&& crate::symbol_mapping::symtab_bounded(o.symtab)
        }),
    decreases lines.len() - i,
{
    if i >= lines.len() {
    } else if !is_significant(lines[i]) {
        lemma_pass1_rest_chain(lines, i + 1, addr);
    } else {
        let fields = split_ws(upper(lines[i]));
        let label = if fields.len() == 3 {
            Some(fields[0])
        } else {
            None
        };
        let m = if fields.len() == 3 {
            fields[1]
        } else {
            fields[0]
        };
        let operand = if fields.len() == 3 {
            Some(fields[2])
        } else if fields.len() == 2 {
            Some(fields[1])
        } else {
            None
        };
        let ins = SpecInstr { line: (i + 1) as nat, addr, label, mnemonic: m, operand };
        let symsv: Seq<(Seq<char>, nat)> = if fields.len() == 3 {
            seq![(fields[0], addr)]
        } else {
            seq![]
        };
        let adv = spec_advance(m, operand, (i + 1) as nat, lines[i])->Ok_0;
        crate::operands::lemma_advance_line_indep(m, operand, (i + 1) as nat, lines[i]);
        assert(spec_advance(m, operand, (i + 1) as nat, lines[i]) is Ok);
        assert(pass1_rest(lines, i + 1, addr + adv) is Ok);
        lemma_pass1_rest_chain(lines, i + 1, addr + adv);
        let o = pass1_rest(lines, i, addr)->Ok_0;
        let rest = pass1_rest(lines, i + 1, addr + adv)->Ok_0;
        assert(o.instrs == seq![ins] + rest.instrs);
        assert(o.symtab == symsv + rest.symtab);
        assert(o.instrs[0] == ins);
        assert forall|j: int| 1 <= j < o.instrs.len() implies o.instrs[j] == rest.instrs[j - 1] by {}
        assert forall|j: int| 0 <= j < o.symtab.len() implies (#[trigger] o.symtab[j]).1 <= 0x7fff by {
            if j >= symsv.len() {
                assert(o.symtab[j] == rest.symtab[j - symsv.len()]);
            }
        }
        assert forall|j: int|
            0 <= j < o.instrs.len() - 1 implies (#[trigger] o.instrs[j + 1]).addr == o.instrs[j].addr
            + crate::operands::advance_val(o.instrs[j].mnemonic, o.instrs[j].operand) by {
            if j == 0 {
                assert(rest.instrs.len() > 0);
                assert(rest.instrs[0].addr == addr + adv);
                assert(o.instrs[1] == rest.instrs[0]);
            } else {
                assert(o.instrs[j] == rest.instrs[j - 1]);
                assert(o.instrs[j + 1] == rest.instrs[j]);
                assert(rest.instrs[(j - 1) + 1].addr == rest.instrs[j - 1].addr
                    + crate::operands::advance_val(
                    rest.instrs[j - 1].mnemonic,
                    rest.instrs[j - 1].operand,
                ));
            }
        }
    }
}

/// The guarantees of `lemma_pass1_rest_chain` for a whole accepted program.
/// The `START` line stands first and does not advance the counter: the
/// second instruction, if any, shares its address.
pub proof fn lemma_pass1_chain(lines: Seq<Seq<char>>)
    requires
        pass1_model(lines) is Ok,
    ensures
        ({
            let o = pass1_model(lines)->Ok_0;
            &&& o.instrs.len() > 0
            &&& o.instrs[0].mnemonic == "START"@
            &&& forall|j: int| 0 <= j < o.instrs.len() ==> (#[trigger] o.instrs[j]).addr <= 0x7fff
            &&& forall|j: int|
                1 <= j < o.instrs.len() ==> crate::operands::advance_ok(
                    (#[trigger] o.instrs[j]).mnemonic,
                    o.instrs[j].operand,
                )
            &&& forall|j: int|
                1 <= j < o.instrs.len() - 1 ==> (#[trigger] o.instrs[j + 1]).addr == o.instrs[j].addr
                    + crate::operands::advance_val(o.instrs[j].mnemonic, o.instrs[j].operand)
            &&& o.instrs.len() > 1 ==> o.instrs[1].addr == o.instrs[0].addr
            &&& crate::symbol_mapping::symtab_bounded(o.symtab)
        }),
{
    lemma_first_significant_range(lines, 0);
    let k = first_significant(lines, 0);
    assert(k < lines.len());
    let addr = crate::numerals::hex_val(split_ws(upper(lines[k]))[2]);
    lemma_pass1_rest_chain(lines, k + 1, addr);
    let o = pass1_model(lines)->Ok_0;
    let rest = pass1_rest(lines, k + 1, addr)->Ok_0;
    assert forall|j: int| 1 <= j < o.instrs.len() implies o.instrs[j] == rest.instrs[j - 1] by {}
    assert forall|j: int|
        1 <= j < o.instrs.len() - 1 implies (#[trigger] o.instrs[j + 1]).addr == o.instrs[j].addr
        + crate::operands::advance_val(o.instrs[j].mnemonic, o.instrs[j].operand) by {
        assert(o.instrs[j] == rest.instrs[j - 1]);
        assert(o.instrs[j + 1] == rest.instrs[j]);
        assert(rest.instrs[(j - 1) + 1].addr == rest.instrs[j - 1].addr
            + crate::operands::advance_val(rest.instrs[j - 1].mnemonic, rest.instrs[j - 1].operand));
    }
}

fn line_significant_test(line: &String) -> (r: bool)
    ensures
        r == is_significant(line@),
{
    if line_is_comment(line.as_str()) {
        false
    } else {
        let up = upper_chars(line.as_str());
        let fields = split_fields(&up);
        fields.len() != 0
    }
}

fn classify_fields(line: &String) -> (r: Option<Vec<String>>)
    ensures
        match r {
            Some(fields) => is_significant(line@) && fields.deep_view() == split_ws(upper(line@)),
            None => !is_significant(line@),
        },
{
    if line_is_comment(line.as_str()) {
        return None;
    }
    let up = upper_chars(line.as_str());
    let fields = split_fields(&up);
    if fields.len() == 0 {
        None
    } else {
        Some(fields)
    }
}

/// Relates the final result to the work still ahead of the loop: an error
/// ahead is the final error, and a success ahead extends what is built.
spec fn pass1_loop_inv(
    whole: Result<Pass1Ok, SpecErr>,
    rest: Result<Pass1Ok, SpecErr>,
    instrs: Seq<InstructionType>,
    symtab: Seq<SymbolMapping>,
) -> bool {
    match rest {
        Ok(r) => whole is Ok && whole->Ok_0.instrs == instr_views(instrs) + r.instrs
            && whole->Ok_0.symtab == symtab_view(symtab) + r.symtab,
        Err(e) => whole == Err::<Pass1Ok, SpecErr>(e),
    }
}

/// Pass 1 over the raw source lines: classification, address assignment and
/// symbol-table construction, exactly as `pass1_model` describes.
pub fn pass1(lines: &Vec<String>) -> (r: Result<
    (Vec<InstructionType>, Vec<SymbolMapping>),
    AsmError,
>)
    ensures
        ({
            let m = pass1_model(lines.deep_view());
            match r {
                Ok(out) => m is Ok && instr_views(out.0@) == m->Ok_0.instrs && symtab_view(out.1@)
                    == m->Ok_0.symtab,
                Err(e) => m == Err::<Pass1Ok, SpecErr>(e@),
            }
        }),
{
    let ghost ld = lines.deep_view();
    let n = lines.len();
    let mut k: usize = 0;
    while k < n && !line_significant_test(&lines[k])
        invariant
            k <= n,
            first_significant(ld, 0) == first_significant(ld, k as int),
        decreases n - k,
    {
        proof {
            assert(first_significant(ld, k as int) == first_significant(ld, k + 1));
        }
        k += 1;
    }
    if k == n {
        return Err(AsmError::MissingStartDirective);
    }
    proof {
        assert(first_significant(ld, 0) == k);
    }
    let fields = match classify_fields(&lines[k]) {
        Some(f) => f,
        None => {
            proof {
                assert(false);
            }
            return Err(AsmError::MissingStartDirective);
        },
    };
    if fields.len() != 3 || !crate::text::str_eq(fields[1].as_str(), "START") {
        return Err(AsmError::MissingStartDirective);
    }
    let start_addr = match crate::numerals::parse_hex(fields[2].as_str()) {
        Some(v) => v,
        None => {
            return Err(
                AsmError::NumericParseFailure { line: k + 1, text: lines[k].clone() },
            );
        },
    };
    if start_addr > 0x7fff {
        return Err(AsmError::AddressOverflow { line: k + 1, text: lines[k].clone() });
    }
    let mut instrs: Vec<InstructionType> = Vec::new();
    let mut symtab: Vec<SymbolMapping> = Vec::new();
    instrs.push(
        InstructionType::SymbolOpcodeOperand(
            InstructionSymbolOpcodeOperand::new(
                k + 1,
                start_addr,
                fields[0].as_str(),
                fields[1].as_str(),
                fields[2].as_str(),
            ),
        ),
    );
    let ghost whole = pass1_model(ld);
    let ghost start_ins = SpecInstr {
        line: (k + 1) as nat,
        addr: start_addr as nat,
        label: Some(split_ws(upper(ld[k as int]))[0]),
        mnemonic: split_ws(upper(ld[k as int]))[1],
        operand: Some(split_ws(upper(ld[k as int]))[2]),
    };
    proof {
        assert(instr_views(instrs@) =~= seq![start_ins]);
        assert(symtab_view(symtab@) =~= Seq::<(Seq<char>, nat)>::empty());
        assert(pass1_loop_inv(
            whole,
            pass1_rest(ld, k + 1, start_addr as nat),
            instrs@,
            symtab@,
        ));
    }
    let mut i: usize = k + 1;
    let mut addr: usize = start_addr;
    let ghost mut addr_m: nat = start_addr as nat;
    while i < n
        invariant
            k < n,
            k + 1 <= i <= n,
            addr as nat == sat_cap(addr_m),
            whole == pass1_model(ld),
            pass1_loop_inv(whole, pass1_rest(ld, i as int, addr_m), instrs@, symtab@),
        decreases n - i,
    {
        let line_no = i + 1;
        match classify_fields(&lines[i]) {
            None => {
                proof {
                    assert(pass1_rest(ld, i as int, addr_m) == pass1_rest(ld, i + 1, addr_m));
                }
                i += 1;
            },
            Some(f) => {
                if addr > 0x7fff {
                    return Err(
                        AsmError::AddressOverflow { line: line_no, text: lines[i].clone() },
                    );
                }
                let flen = f.len();
                if flen > 3 {
                    return Err(
                        AsmError::InvalidInstructionShape { line: line_no, text: lines[i].clone() },
                    );
                }
                let ghost sfields = split_ws(upper(ld[i as int]));
                let ghost mv = if sfields.len() == 3 {
                    sfields[1]
                } else {
                    sfields[0]
                };
                let ghost opv = if sfields.len() == 3 {
                    Some(sfields[2])
                } else if sfields.len() == 2 {
                    Some(sfields[1])
                } else {
                    None
                };
                let ghost insv = SpecInstr {
                    line: line_no as nat,
                    addr: addr_m,
                    label: if sfields.len() == 3 {
                        Some(sfields[0])
                    } else {
                        None
                    },
                    mnemonic: mv,
                    operand: opv,
                };
                let ghost instrs_before = instrs@;
                let ghost symtab_before = symtab@;
                let adv_result = if flen == 3 {
                    instrs.push(
                        InstructionType::SymbolOpcodeOperand(
                            InstructionSymbolOpcodeOperand::new(
                                line_no,
                                addr,
                                f[0].as_str(),
                                f[1].as_str(),
                                f[2].as_str(),
                            ),
                        ),
                    );
                    symtab.push(SymbolMapping::new(f[0].as_str(), addr));
                    advance_amount(f[1].as_str(), Some(&f[2]), line_no, lines[i].as_str())
                } else if flen == 2 {
                    instrs.push(
                        InstructionType::OpcodeOperand(
                            InstructionOpcodeOperand::new(
                                line_no,
                                addr,
                                f[0].as_str(),
                                f[1].as_str(),
                            ),
                        ),
                    );
                    advance_amount(f[0].as_str(), Some(&f[1]), line_no, lines[i].as_str())
                } else {
                    instrs.push(
                        InstructionType::OpcodeOnly(
                            InstructionOpcodeOnly::new(line_no, addr, f[0].as_str()),
                        ),
                    );
                    advance_amount(f[0].as_str(), None, line_no, lines[i].as_str())
                };
                let a = match adv_result {
                    Ok(a) => a,
                    Err(e) => {
                        return Err(e);
                    },
                };
                let ghost adv_spec = spec_advance(mv, opv, line_no as nat, ld[i as int])->Ok_0;
                proof {
                    let rest_here = pass1_rest(ld, i as int, addr_m);
                    let rest_next = pass1_rest(ld, i + 1, addr_m + adv_spec);
                    let symsv: Seq<(Seq<char>, nat)> = if sfields.len() == 3 {
                        seq![(sfields[0], addr_m)]
                    } else {
                        seq![]
                    };
                    assert(rest_here == match rest_next {
                        Ok(rest) => Ok::<Pass1Ok, SpecErr>(
                            Pass1Ok {
                                instrs: seq![insv] + rest.instrs,
                                symtab: symsv + rest.symtab,
                            },
                        ),
                        Err(e) => Err(e),
                    });
                    assert(instr_views(instrs@) =~= instr_views(instrs_before) + seq![insv]);
                    assert(symtab_view(symtab@) =~= symtab_view(symtab_before) + symsv);
                    match rest_next {
                        Ok(rn) => {
                            assert(whole->Ok_0.instrs =~= instr_views(instrs@) + rn.instrs);
                            assert(whole->Ok_0.symtab =~= symtab_view(symtab@) + rn.symtab);
                        },
                        Err(_) => {},
                    }
                    addr_m = addr_m + adv_spec;
                }
                addr = match addr.checked_add(a) {
                    Some(v) => v,
                    None => usize::MAX,
                };
                i += 1;
            },
        }
    }
    proof {
        assert(pass1_rest(ld, n as int, addr_m) == Ok::<Pass1Ok, SpecErr>(
            Pass1Ok { instrs: seq![], symtab: seq![] },
        ));
        assert(whole->Ok_0.instrs =~= instr_views(instrs@));
        assert(whole->Ok_0.symtab =~= symtab_view(symtab@));
    }
    Ok((instrs, symtab))
}

} // verus!
