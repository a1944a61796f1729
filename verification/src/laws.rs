//! The assembler's headline guarantees, stated and proved once over the
//! models that the executable passes are verified against.

use vstd::prelude::*;
use crate::errors::SpecErr;
use crate::numerals::{dec_val, hex_fmt, is_dec_str, lemma_hex_fmt_len};
use crate::operands::{parse_byte_operand, spec_advance, ByteOp};
use crate::pass1::{first_significant, is_significant, lemma_pass1_chain, pass1_model, pass1_rest, Pass1Ok};
use crate::text::{split_ws, upper};
use crate::pass2::{hex_encode_chars, lemma_hex_encode_len, obj_code_model};

verus! {

proof fn reveal_directive_words()
    ensures
        "BYTE"@ != "START"@ && "BYTE"@ != "END"@ && "BYTE"@ != "RESB"@ && "BYTE"@ != "RESW"@,
        "WORD"@ != "START"@ && "WORD"@ != "END"@ && "WORD"@ != "RESB"@ && "WORD"@ != "RESW"@
            && "WORD"@ != "BYTE"@,
        "RESB"@ != "START"@ && "RESB"@ != "END"@,
        "RESW"@ != "START"@ && "RESW"@ != "END"@ && "RESW"@ != "RESB"@,
{
    reveal_strlit("BYTE");
    reveal_strlit("WORD");
    reveal_strlit("START");
    reveal_strlit("END");
    reveal_strlit("RESB");
    reveal_strlit("RESW");
    assert("BYTE"@[0] != "RESB"@[0]);
    assert("BYTE"@[0] != "RESW"@[0]);
    assert("BYTE"@[0] != "WORD"@[0]);
    assert("BYTE"@.len() != "START"@.len());
    assert("BYTE"@[0] != "END"@[0]);
    assert("WORD"@[0] != "RESB"@[0]);
    assert("WORD"@[0] != "RESW"@[0]);
    assert("WORD"@.len() != "START"@.len());
    assert("WORD"@[0] != "END"@[0]);
    assert("RESB"@.len() != "START"@.len());
    assert("RESB"@.len() != "END"@.len());
    assert("RESW"@.len() != "START"@.len());
    assert("RESW"@.len() != "END"@.len());
    assert("RESB"@[3] != "RESW"@[3]);
}

/// A `BYTE X'<hex>'` operand emits the hex digits unchanged, and advances
/// the location counter by half the digit count.
pub proof fn law_byte_hex(
    line: nat,
    op: Seq<char>,
    h: Seq<char>,
    raw: Seq<char>,
    symtab: Seq<(Seq<char>, nat)>,
    table: Seq<(Seq<char>, u8)>,
)
    requires
        parse_byte_operand(op) == Some(ByteOp::Hex(h)),
    ensures
        obj_code_model(line, "BYTE"@, Some(op), symtab, table) == Ok::<Seq<char>, SpecErr>(h),
        spec_advance("BYTE"@, Some(op), line, raw) == Ok::<nat, SpecErr>((h.len() / 2) as nat),
{
    reveal_directive_words();
}

/// A `BYTE C'<chars>'` operand emits two hex digits per character, and
/// advances the location counter by the character count.
pub proof fn law_byte_chars(
    line: nat,
    op: Seq<char>,
    cs: Seq<char>,
    raw: Seq<char>,
    symtab: Seq<(Seq<char>, nat)>,
    table: Seq<(Seq<char>, u8)>,
)
    requires
        parse_byte_operand(op) == Some(ByteOp::Chars(cs)),
    ensures
        obj_code_model(line, "BYTE"@, Some(op), symtab, table) == Ok::<Seq<char>, SpecErr>(
            hex_encode_chars(cs),
        ),
        hex_encode_chars(cs).len() == 2 * cs.len(),
        spec_advance("BYTE"@, Some(op), line, raw) == Ok::<nat, SpecErr>(cs.len()),
{
    reveal_directive_words();
    lemma_hex_encode_len(cs);
}

/// `WORD` advances the location counter by 3 and emits its decimal operand
/// as exactly six hex digits.
pub proof fn law_word(
    line: nat,
    op: Seq<char>,
    raw: Seq<char>,
    symtab: Seq<(Seq<char>, nat)>,
    table: Seq<(Seq<char>, u8)>,
)
    requires
        is_dec_str(op),
        dec_val(op) <= 0xffffff,
    ensures
        spec_advance("WORD"@, Some(op), line, raw) == Ok::<nat, SpecErr>(3),
        obj_code_model(line, "WORD"@, Some(op), symtab, table) == Ok::<Seq<char>, SpecErr>(
            hex_fmt(dec_val(op), 6),
        ),
        hex_fmt(dec_val(op), 6).len() == 6,
{
    reveal_directive_words();
    assert(crate::numerals::pow16(0) == 1);
    assert(crate::numerals::pow16(1) == 16);
    assert(crate::numerals::pow16(2) == 0x100);
    assert(crate::numerals::pow16(3) == 0x1000);
    assert(crate::numerals::pow16(4) == 0x10000);
    assert(crate::numerals::pow16(5) == 0x100000);
    assert(crate::numerals::pow16(6) == 0x1000000);
    lemma_hex_fmt_len(dec_val(op), 6);
}

/// `RESB` and `RESW` advance the location counter by `n` and `3n` for a
/// decimal operand `n`, and emit no object code.
pub proof fn law_reserve(
    line: nat,
    op: Seq<char>,
    raw: Seq<char>,
    symtab: Seq<(Seq<char>, nat)>,
    table: Seq<(Seq<char>, u8)>,
)
    requires
        is_dec_str(op),
        dec_val(op) <= usize::MAX,
    ensures
        spec_advance("RESB"@, Some(op), line, raw) == Ok::<nat, SpecErr>(dec_val(op)),
        spec_advance("RESW"@, Some(op), line, raw) == Ok::<nat, SpecErr>(3 * dec_val(op)),
        obj_code_model(line, "RESB"@, Some(op), symtab, table) == Ok::<Seq<char>, SpecErr>(seq![]),
        obj_code_model(line, "RESW"@, Some(op), symtab, table) == Ok::<Seq<char>, SpecErr>(seq![]),
{
    reveal_directive_words();
}

/// An instruction referencing `symbol,X` resolves to its opcode and the
/// symbol's address plus `0x8000`, the indexed-addressing bit.
pub proof fn law_indexed_addressing(
    line: nat,
    m: Seq<char>,
    sym: Seq<char>,
    a: nat,
    op: u8,
    symtab: Seq<(Seq<char>, nat)>,
    table: Seq<(Seq<char>, u8)>,
)
    requires
        m != "START"@ && m != "END"@ && m != "RESB"@ && m != "RESW"@ && m != "BYTE"@ && m
            != "WORD"@,
        crate::opcode_table::spec_lookup(table, m) == Some(op),
        crate::symbol_mapping::spec_find_symbol(symtab, sym) == Some(a),
    ensures
        obj_code_model(line, m, Some(sym + ",X"@), symtab, table) == Ok::<Seq<char>, SpecErr>(
            hex_fmt(op as nat, 2) + hex_fmt(a + 0x8000, 4),
        ),
{
    reveal_strlit(",X");
    let t = sym + ",X"@;
    assert(t[t.len() - 2] == ',');
    assert(t[t.len() - 1] == 'X');
    assert(t.subrange(0, t.len() - 2) =~= sym);
}

/// A program that pass 1 accepts never carries an address beyond `0x7FFF`:
/// a location counter past the 15-bit range fails, with `AddressOverflow`,
/// at the very line it would have addressed, never after pass 1 completes.
pub proof fn law_no_overflow_accepted(lines: Seq<Seq<char>>)
    requires
        pass1_model(lines) is Ok,
    ensures
        forall|j: int|
            0 <= j < pass1_model(lines)->Ok_0.instrs.len() ==> (#[trigger] pass1_model(
                lines,
            )->Ok_0.instrs[j]).addr <= 0x7fff,
{
    lemma_pass1_chain(lines);
}

/// Truncating the input before the first significant line at or after `i`
/// does not move it.
proof fn lemma_first_significant_truncated(lines: Seq<Seq<char>>, i: int, m: int)
    requires
        0 <= i <= m <= lines.len(),
        first_significant(lines, i) < m,
    ensures
        first_significant(lines.subrange(0, m), i) == first_significant(lines, i),
    decreases lines.len() - i,
{
    crate::pass1::lemma_first_significant_range(lines, i);
    if !is_significant(lines[i]) {
        lemma_first_significant_truncated(lines, i + 1, m);
    }
}

/// An overflow from the lines at `i` on is raised at a line the input holds,
/// carries that line's text, and names the first offending line: the lines
/// before it assemble without error.
proof fn lemma_overflow_rest_is_first(lines: Seq<Seq<char>>, i: int, addr: nat, l: nat, t: Seq<char>)
    requires
        0 <= i <= lines.len(),
        pass1_rest(lines, i, addr) == Err::<Pass1Ok, SpecErr>(SpecErr::Overflow { line: l, text: t }),
    ensures
        i + 1 <= l <= lines.len(),
        t == lines[l - 1],
        is_significant(lines[l - 1]),
        pass1_rest(lines.subrange(0, l - 1), i, addr) is Ok,
    decreases lines.len() - i,
{
    let fields = split_ws(upper(lines[i]));
    if !is_significant(lines[i]) {
        lemma_overflow_rest_is_first(lines, i + 1, addr, l, t);
        assert(lines.subrange(0, l - 1).drop_first() =~= lines.drop_first().subrange(0, l - 2));
    } else if addr > 0x7fff {
        assert(l == i + 1);
        assert(pass1_rest(lines.subrange(0, l - 1), i, addr) is Ok);
    } else if fields.len() > 3 {
    } else {
        let m = if fields.len() == 3 {
            fields[1]
        } else {
            fields[0]
        };
        let operand = if fields.len() == 3 {
            Some(fields[2])
        } else if fields.len() == 2 {
            Some(fields[1])
        } else {
            None
        };
        match spec_advance(m, operand, (i + 1) as nat, lines[i]) {
            Err(_) => {},
            Ok(adv) => {
                lemma_overflow_rest_is_first(lines, i + 1, addr + adv, l, t);
                assert(i + 2 <= l);
                assert(lines.subrange(0, l - 1)[i] == lines[i]);
                assert(pass1_rest(lines.subrange(0, l - 1), i + 1, addr + adv) is Ok);
                assert(pass1_rest(lines.subrange(0, l - 1), i, addr) is Ok);
            },
        }
    }
}

/// An `AddressOverflow` from pass 1 names a line of the input, carries its
/// raw text, and strikes at the first offending line: the input truncated
/// just before that line assembles without error. (An overflow on the
/// `START` line itself leaves nothing significant before it to assemble.)
pub proof fn law_overflow_at_first_offending_line(lines: Seq<Seq<char>>, l: nat, t: Seq<char>)
    requires
        pass1_model(lines) == Err::<Pass1Ok, SpecErr>(SpecErr::Overflow { line: l, text: t }),
    ensures
        1 <= l <= lines.len(),
        t == lines[l - 1],
        is_significant(lines[l - 1]),
        l > first_significant(lines, 0) + 1 ==> pass1_model(lines.subrange(0, l - 1)) is Ok,
{
    crate::pass1::lemma_first_significant_range(lines, 0);
    let k = first_significant(lines, 0);
    let fields = split_ws(upper(lines[k]));
    let addr = crate::numerals::hex_val(fields[2]);
    if addr > 0x7fff {
        assert(l == k + 1);
        lemma_first_significant_is_significant(lines, 0);
    } else {
        lemma_overflow_rest_is_first(lines, k + 1, addr, l, t);
        if l > k + 1 {
            lemma_first_significant_truncated(lines, 0, l - 1);
            let truncated = lines.subrange(0, l - 1);
            assert(truncated[k] == lines[k]);
            assert(pass1_model(truncated) is Ok);
        }
    }
}

/// The line `first_significant` finds is significant when it is in range.
proof fn lemma_first_significant_is_significant(lines: Seq<Seq<char>>, i: int)
    requires
        0 <= i <= lines.len(),
        first_significant(lines, i) < lines.len(),
    ensures
        is_significant(lines[first_significant(lines, i)]),
    decreases lines.len() - i,
{
    if i < lines.len() && !is_significant(lines[i]) {
        lemma_first_significant_is_significant(lines, i + 1);
    }
}

} // verus!
