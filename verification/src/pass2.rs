//! Pass 2: resolves each instruction against the symbol table and the opcode
//! table into one hex object-code string, in instruction order.

use vstd::prelude::*;
use crate::errors::{AsmError, SpecErr};
use crate::instruction_type::{instr_views, InstructionType, SpecInstr};
use crate::numerals::{dec_val, hex_fmt, is_dec_str, push_hex};
use crate::opcode_table::{spec_lookup, OpcodeTable};
use crate::operands::{parse_byte, parse_byte_operand, split_index_operand, ByteOp};
use crate::symbol_mapping::{
    lemma_find_symbol_bounded,
    find_symbol,
    spec_find_symbol,
    symtab_bounded,
    symtab_view,
    SymbolMapping,
};
use crate::text::{str_eq, string_from_chars};
use vstd::string::StrSliceExecFns;

verus! {

/// The low byte of a character's scalar value, as `BYTE C'...'` encodes it.
pub open spec fn byte_of_char(c: char) -> nat {
    (c as nat) % 256
}

/// Each character encoded as two hex digits of its low byte, in order.
pub open spec fn hex_encode_chars(cs: Seq<char>) -> Seq<char>
    decreases cs.len(),
{
    if cs.len() == 0 {
        seq![]
    } else {
        hex_encode_chars(cs.drop_last()) + hex_fmt(byte_of_char(cs.last()), 2)
    }
}

/// The object code of one instruction. `START`, `END`, `RESB` and `RESW`
/// emit nothing; `BYTE` emits its literal's bytes; `WORD` emits its decimal
/// operand as six hex digits (values past six hex digits are rejected); any
/// other mnemonic is looked up in the opcode table and emits its opcode and
/// the four-digit target address: the first definition of the operand's
/// symbol, `0x8000` higher under indexed addressing, or zero with no operand.
pub open spec fn obj_code_model(
    line: nat,
    m: Seq<char>,
    operand: Option<Seq<char>>,
    symtab: Seq<(Seq<char>, nat)>,
    table: Seq<(Seq<char>, u8)>,
) -> Result<Seq<char>, SpecErr> {
    if m == "START"@ || m == "END"@ || m == "RESB"@ || m == "RESW"@ {
        Ok(seq![])
    } else if m == "BYTE"@ {
        match operand {
            None => Err(SpecErr::InvalidByte { line, operand: seq![] }),
            Some(op) => match parse_byte_operand(op) {
                Some(ByteOp::Hex(h)) => Ok(h),
                Some(ByteOp::Chars(c)) => Ok(hex_encode_chars(c)),
                None => Err(SpecErr::InvalidByte { line, operand: op }),
            },
        }
    } else if m == "WORD"@ {
        match operand {
            None => Err(SpecErr::BadNumber { line, text: seq![] }),
            Some(op) => if is_dec_str(op) && dec_val(op) <= 0xffffff {
                Ok(hex_fmt(dec_val(op), 6))
            } else {
                Err(SpecErr::BadNumber { line, text: op })
            },
        }
    } else {
        match spec_lookup(table, m) {
            None => Err(SpecErr::UnknownOpcode { line, mnemonic: m }),
            Some(op) => match operand {
                None => Ok(hex_fmt(op as nat, 2) + hex_fmt(0, 4)),
                Some(text) => {
                    let si = split_index_operand(text);
                    match spec_find_symbol(symtab, si.0) {
                        None => Err(SpecErr::UndefinedSymbol { line, symbol: si.0 }),
                        Some(a) => Ok(
                            hex_fmt(op as nat, 2) + hex_fmt(
                                a + (if si.1 {
                                    0x8000nat
                                } else {
                                    0nat
                                }),
                                4,
                            ),
                        ),
                    }
                },
            },
        }
    }
}

/// Pass 2 over the instructions from `i` on: one code per instruction, in
/// order, stopping at the first error.
pub open spec fn pass2_rest(
    instrs: Seq<SpecInstr>,
    i: int,
    symtab: Seq<(Seq<char>, nat)>,
    table: Seq<(Seq<char>, u8)>,
) -> Result<Seq<Seq<char>>, SpecErr>
    decreases instrs.len() - i
        when 0 <= i <= instrs.len()
{
    if i >= instrs.len() {
        Ok(seq![])
    } else {
        match obj_code_model(instrs[i].line, instrs[i].mnemonic, instrs[i].operand, symtab, table) {
            Err(e) => Err(e),
            Ok(code) => match pass2_rest(instrs, i + 1, symtab, table) {
                Err(e) => Err(e),
                Ok(rest) => Ok(seq![code] + rest),
            },
        }
    }
}

/// The whole of pass 2.
pub open spec fn pass2_model(
    instrs: Seq<SpecInstr>,
    symtab: Seq<(Seq<char>, nat)>,
    table: Seq<(Seq<char>, u8)>,
) -> Result<Seq<Seq<char>>, SpecErr> {
    pass2_rest(instrs, 0, symtab, table)
}

fn encode_chars(payload: &str) -> (r: String)
    ensures
        r@ == hex_encode_chars(payload@),
{
    let n = payload.unicode_len();
    let mut out: Vec<char> = Vec::new();
    let mut i: usize = 0;
    while i < n
        invariant
            n == payload@.len(),
            i <= n,
            out@ == hex_encode_chars(payload@.subrange(0, i as int)),
        decreases n - i,
    {
        let c = payload.get_char(i);
        let u = c as u32;
        let b = (u % 256) as u8;
        push_hex(&mut out, b as usize, 2);
        proof {
            let pre = payload@.subrange(0, i + 1);
            assert(pre.drop_last() =~= payload@.subrange(0, i as int));
            assert(pre.last() == payload@[i as int]);
        }
        i += 1;
    }
    proof {
        assert(payload@.subrange(0, n as int) =~= payload@);
    }
    string_from_chars(&out)
}

/// Resolves one instruction's object code, as `obj_code_model` describes.
pub fn resolve_obj_code(
    line: usize,
    mnemonic: &str,
    operand: Option<&String>,
    symtab: &Vec<SymbolMapping>,
    table: &OpcodeTable,
) -> (r: Result<String, AsmError>)
    requires
        symtab_bounded(symtab_view(symtab@)),
    ensures
        ({
            let opv = match operand {
                Some(o) => Some(o@),
                None => None,
            };
            let s = obj_code_model(line as nat, mnemonic@, opv, symtab_view(symtab@), table@);
            match r {
                Ok(code) => s == Ok::<Seq<char>, SpecErr>(code@),
                Err(e) => s == Err::<Seq<char>, SpecErr>(e@),
            }
        }),
{
    if str_eq(mnemonic, "START") || str_eq(mnemonic, "END") || str_eq(mnemonic, "RESB") || str_eq(
        mnemonic,
        "RESW",
    ) {
        let empty = String::new();
        proof {
            assert(empty@ =~= seq![]);
        }
        Ok(empty)
    } else if str_eq(mnemonic, "BYTE") {
        match operand {
            None => {
                let empty = String::new();
                proof {
                    assert(empty@ =~= seq![]);
                }
                Err(AsmError::InvalidByteOperand { line, operand: empty })
            },
            Some(op) => match parse_byte(op.as_str()) {
                Some(p) => {
                    let (is_hex, payload) = p;
                    if is_hex {
                        Ok(payload)
                    } else {
                        Ok(encode_chars(payload.as_str()))
                    }
                },
                None => Err(AsmError::InvalidByteOperand { line, operand: op.clone() }),
            },
        }
    } else if str_eq(mnemonic, "WORD") {
        match operand {
            None => {
                let empty = String::new();
                proof {
                    assert(empty@ =~= seq![]);
                }
                Err(AsmError::NumericParseFailure { line, text: empty })
            },
            Some(op) => match crate::numerals::parse_dec(op.as_str()) {
                Some(v) => {
                    if v <= 0xffffff {
                        let mut out: Vec<char> = Vec::new();
                        push_hex(&mut out, v, 6);
                        Ok(string_from_chars(&out))
                    } else {
                        Err(AsmError::NumericParseFailure { line, text: op.clone() })
                    }
                },
                None => Err(AsmError::NumericParseFailure { line, text: op.clone() }),
            },
        }
    } else {
        match table.lookup(mnemonic) {
            None => Err(AsmError::UnknownOpcode { line, mnemonic: mnemonic.to_owned() }),
            Some(op) => match operand {
                None => {
                    let mut out: Vec<char> = Vec::new();
                    push_hex(&mut out, op as usize, 2);
                    push_hex(&mut out, 0, 4);
                    Ok(string_from_chars(&out))
                },
                Some(text) => {
                    let tn = text.as_str().unicode_len();
                    let is_indexed = tn >= 2 && text.as_str().get_char(tn - 2) == ','
                        && text.as_str().get_char(tn - 1) == 'X';
                    let sym: String = if is_indexed {
                        text.as_str().substring_char(0, tn - 2).to_owned()
                    } else {
                        text.clone()
                    };
                    proof {
                        assert((sym@, is_indexed) == split_index_operand(text@));
                    }
                    match find_symbol(symtab, sym.as_str()) {
                        None => Err(AsmError::UndefinedSymbol { line, symbol: sym }),
                        Some(a) => {
                            proof {
                                lemma_find_symbol_bounded(symtab_view(symtab@), sym@);
                            }
                            let target: usize = if is_indexed {
                                a + 0x8000
                            } else {
                                a
                            };
                            let mut out: Vec<char> = Vec::new();
                            push_hex(&mut out, op as usize, 2);
                            push_hex(&mut out, target, 4);
                            Ok(string_from_chars(&out))
                        },
                    }
                },
            },
        }
    }
}

proof fn lemma_pow16_small()
    ensures
        crate::numerals::pow16(2) == 0x100,
        crate::numerals::pow16(4) == 0x10000,
        crate::numerals::pow16(6) == 0x1000000,
{
    assert(crate::numerals::pow16(0) == 1);
    assert(crate::numerals::pow16(1) == 16);
    assert(crate::numerals::pow16(2) == 0x100);
    assert(crate::numerals::pow16(3) == 0x1000);
    assert(crate::numerals::pow16(4) == 0x10000);
    assert(crate::numerals::pow16(5) == 0x100000);
    assert(crate::numerals::pow16(6) == 0x1000000);
}

/// `BYTE C'...'` encodes each character in exactly two hex digits.
pub proof fn lemma_hex_encode_len(cs: Seq<char>)
    ensures
        hex_encode_chars(cs).len() == 2 * cs.len(),
    decreases cs.len(),
{
    if cs.len() > 0 {
        lemma_hex_encode_len(cs.drop_last());
        lemma_pow16_small();
        crate::numerals::lemma_hex_fmt_len(byte_of_char(cs.last()), 2);
    }
}

/// Every object code an instruction resolves to is a whole number of bytes,
/// no longer than the instruction's counter advance, and empty for the
/// directives that emit nothing.
pub proof fn lemma_obj_code_props(
    line: nat,
    m: Seq<char>,
    operand: Option<Seq<char>>,
    symtab: Seq<(Seq<char>, nat)>,
    table: Seq<(Seq<char>, u8)>,
)
    requires
        symtab_bounded(symtab),
        obj_code_model(line, m, operand, symtab, table) is Ok,
    ensures
        ({
            let code = obj_code_model(line, m, operand, symtab, table)->Ok_0;
            &&& code.len() % 2 == 0
            &&& crate::operands::advance_ok(m, operand) ==> code.len() / 2
                <= crate::operands::advance_val(m, operand)
            &&& (m == "START"@ || m == "END"@ || m == "RESB"@ || m == "RESW"@) ==> code.len() == 0
        }),
{
    lemma_pow16_small();
    let code = obj_code_model(line, m, operand, symtab, table)->Ok_0;
    if m == "START"@ || m == "END"@ || m == "RESB"@ || m == "RESW"@ {
    } else if m == "BYTE"@ {
        match operand {
            None => {},
            Some(op) => match parse_byte_operand(op) {
                Some(ByteOp::Hex(h)) => {},
                Some(ByteOp::Chars(c)) => {
                    lemma_hex_encode_len(c);
                },
                None => {},
            },
        }
    } else if m == "WORD"@ {
        match operand {
            None => {},
            Some(op) => {
                crate::numerals::lemma_hex_fmt_len(dec_val(op), 6);
            },
        }
    } else {
        match spec_lookup(table, m) {
            None => {},
            Some(op) => {
                crate::numerals::lemma_hex_fmt_len(op as nat, 2);
                match operand {
                    None => {
                        crate::numerals::lemma_hex_fmt_len(0, 4);
                    },
                    Some(text) => {
                        let si = split_index_operand(text);
                        match spec_find_symbol(symtab, si.0) {
                            None => {},
                            Some(a) => {
                                lemma_find_symbol_bounded(symtab, si.0);
                                crate::numerals::lemma_hex_fmt_len(
                                    a + (if si.1 {
                                        0x8000nat
                                    } else {
                                        0nat
                                    }),
                                    4,
                                );
                            },
                        }
                    },
                }
            },
        }
    }
}

/// The code at position `j` is what instruction `j` resolves to.
pub open spec fn code_resolves(
    instrs: Seq<SpecInstr>,
    symtab: Seq<(Seq<char>, nat)>,
    table: Seq<(Seq<char>, u8)>,
    j: int,
    code: Seq<char>,
) -> bool {
    obj_code_model(instrs[j].line, instrs[j].mnemonic, instrs[j].operand, symtab, table) == Ok::<
        Seq<char>,
        SpecErr,
    >(code)
}

/// Pass 2 yields exactly one code per instruction: the one its own
/// resolution gives.
pub proof fn lemma_pass2_rest_codes(
    instrs: Seq<SpecInstr>,
    i: int,
    symtab: Seq<(Seq<char>, nat)>,
    table: Seq<(Seq<char>, u8)>,
)
    requires
        0 <= i <= instrs.len(),
        pass2_rest(instrs, i, symtab, table) is Ok,
    ensures
        ({
            let codes = pass2_rest(instrs, i, symtab, table)->Ok_0;
            &&& codes.len() == instrs.len() - i
            &&& forall|j: int|
                #![trigger codes[j]]
                0 <= j < codes.len() ==> code_resolves(instrs, symtab, table, i + j, codes[j])
        }),
    decreases instrs.len() - i,
{
    if i < instrs.len() {
        lemma_pass2_rest_codes(instrs, i + 1, symtab, table);
        let codes = pass2_rest(instrs, i, symtab, table)->Ok_0;
        let rest = pass2_rest(instrs, i + 1, symtab, table)->Ok_0;
        assert forall|j: int| 1 <= j < codes.len() implies codes[j] == rest[j - 1] by {}
    }
}

/// Relates the final result to the work still ahead of the loop.
spec fn pass2_loop_inv(
    whole: Result<Seq<Seq<char>>, SpecErr>,
    rest: Result<Seq<Seq<char>>, SpecErr>,
    codes: Seq<Seq<char>>,
) -> bool {
    match rest {
        Ok(r) => whole is Ok && whole->Ok_0 == codes + r,
        Err(e) => whole == Err::<Seq<Seq<char>>, SpecErr>(e),
    }
}

/// Pass 2 over a whole instruction list: a pure function of the instruction
/// list, the symbol table and the opcode table, producing one object-code
/// string per instruction in the same order.
pub fn pass2(
    instructions: &Vec<InstructionType>,
    symtab: &Vec<SymbolMapping>,
    table: &OpcodeTable,
) -> (r: Result<Vec<String>, AsmError>)
    requires
        symtab_bounded(symtab_view(symtab@)),
    ensures
        ({
            let m = pass2_model(instr_views(instructions@), symtab_view(symtab@), table@);
            match r {
                Ok(codes) => m == Ok::<Seq<Seq<char>>, SpecErr>(codes.deep_view()),
                Err(e) => m == Err::<Seq<Seq<char>>, SpecErr>(e@),
            }
        }),
{
    let ghost iv = instr_views(instructions@);
    let ghost sv = symtab_view(symtab@);
    let ghost tv = table@;
    let ghost whole = pass2_model(iv, sv, tv);
    let mut codes: Vec<String> = Vec::new();
    let mut i: usize = 0;
    proof {
        assert(codes.deep_view() =~= Seq::<Seq<char>>::empty());
    }
    while i < instructions.len()
        invariant
            i <= instructions@.len(),
            iv.len() == instructions@.len(),
            pass2_loop_inv(whole, pass2_rest(iv, i as int, sv, tv), codes.deep_view()),
        decreases instructions@.len() - i,
    {
        let ghost codes_before = codes.deep_view();
        let res = match &instructions[i] {
            InstructionType::SymbolOpcodeOperand(x) => resolve_obj_code(
                x.line,
                x.opcode.as_str(),
                Some(&x.operand),
                symtab,
                table,
            ),
            InstructionType::OpcodeOperand(x) => resolve_obj_code(
                x.line,
                x.opcode.as_str(),
                Some(&x.operand),
                symtab,
                table,
            ),
            InstructionType::OpcodeOnly(x) => resolve_obj_code(
                x.line,
                x.opcode.as_str(),
                None,
                symtab,
                table,
            ),
        };
        match res {
            Err(e) => {
                return Err(e);
            },
            Ok(code) => {
                codes.push(code);
                proof {
                    assert(codes.deep_view() =~= codes_before + seq![code@]);
                    match pass2_rest(iv, i + 1, sv, tv) {
                        Ok(rn) => {
                            assert(whole->Ok_0 =~= codes.deep_view() + rn);
                        },
                        Err(_) => {},
                    }
                }
                i += 1;
            },
        }
    }
    proof {
        assert(whole->Ok_0 =~= codes.deep_view());
    }
    Ok(codes)
}

} // verus!
