//! The record formatter: packs per-instruction object code into Header, Text
//! and End records. Text records carry at most 60 hex digits (30 bytes) and
//! break at reserve directives, which leave an address gap no contiguous
//! record can span.

use vstd::prelude::*;
use crate::instruction_type::{instr_views, InstructionType, SpecInstr};
use crate::numerals::{hex_fmt, push_hex};
use crate::text::{push_str_chars, str_eq, string_from_chars};
use vstd::string::StrSliceExecFns;

verus! {

/// What the record formatter reads of one instruction: its address, its
/// mnemonic, its label and its object code.
pub ghost struct RecItemV {
    pub addr: nat,
    pub mnemonic: Seq<char>,
    pub label: Option<Seq<char>>,
    pub code: Seq<char>,
}

/// The formatter's running state: the program name and load address seen at
/// `START`, the hex text accumulated since the last break, and the records
/// emitted so far.
pub ghost struct SpecRecState {
    pub pname: Seq<char>,
    pub paddr: nat,
    pub buf: Seq<char>,
    pub lines: Seq<Seq<char>>,
}

/// `n` blanks.
pub open spec fn spaces(n: nat) -> Seq<char> {
    Seq::new(n, |i: int| ' ')
}

/// `s` left-justified in a field of `w` blanks; longer names are kept whole.
pub open spec fn pad_to(s: Seq<char>, w: nat) -> Seq<char> {
    s + spaces(if s.len() >= w {
        0
    } else {
        (w - s.len()) as nat
    })
}

/// A Text record: `T`, the start address as six hex digits, the byte count
/// as two hex digits, and the payload.
pub open spec fn text_record(start: nat, payload: Seq<char>) -> Seq<char> {
    seq!['T'] + hex_fmt(start, 6) + hex_fmt(payload.len() as nat / 2, 2) + payload
}

/// A Header record: `H`, the program name padded to six characters, the load
/// address and the program length as six hex digits each.
pub open spec fn header_record(pname: Seq<char>, paddr: nat, end_addr: nat) -> Seq<char> {
    seq!['H'] + pad_to(pname, 6) + hex_fmt(paddr, 6) + hex_fmt((end_addr - paddr) as nat, 6)
}

/// An End record: `E` and the load address as six hex digits.
pub open spec fn end_record(paddr: nat) -> Seq<char> {
    seq!['E'] + hex_fmt(paddr, 6)
}

/// Emits the buffered text as one record ending just before `addr`, when the
/// buffer is non-empty.
pub open spec fn flush_lines(lines: Seq<Seq<char>>, buf: Seq<char>, addr: nat) -> Seq<Seq<char>> {
    if buf.len() > 0 {
        lines.push(text_record((addr - buf.len() as int / 2) as nat, buf))
    } else {
        lines
    }
}

/// One step of the formatter's state machine, as the contract of the record
/// formatter describes: a labeled `START` names the program and fixes the
/// load address; a reserve directive flushes the buffer and restarts it; an
/// `END` flushes, puts the Header record in front and appends the End
/// record; anything else appends its code, flushing first when the buffer
/// would exceed 60 hex digits.
pub open spec fn rec_step(st: SpecRecState, it: RecItemV) -> SpecRecState {
    if it.mnemonic == "START"@ && it.label is Some {
        SpecRecState { pname: it.label->0, paddr: it.addr, buf: st.buf, lines: st.lines }
    } else if it.mnemonic == "RESB"@ || it.mnemonic == "RESW"@ {
        SpecRecState {
            pname: st.pname,
            paddr: st.paddr,
            buf: it.code,
            lines: flush_lines(st.lines, st.buf, it.addr),
        }
    } else if it.mnemonic == "END"@ {
        SpecRecState {
            pname: st.pname,
            paddr: st.paddr,
            buf: seq![],
            lines: seq![header_record(st.pname, st.paddr, it.addr)] + flush_lines(
                st.lines,
                st.buf,
                it.addr,
            ) + seq![end_record(st.paddr)],
        }
    } else if st.buf.len() + it.code.len() > 60 {
        SpecRecState {
            pname: st.pname,
            paddr: st.paddr,
            buf: it.code,
            lines: flush_lines(st.lines, st.buf, it.addr),
        }
    } else {
        SpecRecState {
            pname: st.pname,
            paddr: st.paddr,
            buf: st.buf + it.code,
            lines: st.lines,
        }
    }
}

/// The state after the first `n` items.
pub open spec fn rec_fold(items: Seq<RecItemV>, n: int) -> SpecRecState
    decreases n
        when 0 <= n <= items.len()
{
    if n <= 0 {
        SpecRecState { pname: seq![], paddr: 0, buf: seq![], lines: seq![] }
    } else {
        rec_step(rec_fold(items, n - 1), items[n - 1])
    }
}

/// The records for a whole item list; what remains buffered at the end is
/// dropped, as only `END` closes the program.
pub open spec fn records_of(items: Seq<RecItemV>) -> Seq<Seq<char>> {
    rec_fold(items, items.len() as int).lines
}

/// What the formatter requires of its input, and what the two passes
/// guarantee of theirs: addresses in the 15-bit range, object code of whole
/// bytes, and each instruction's code fitting in the gap to the next
/// address.
pub open spec fn records_wf(items: Seq<RecItemV>) -> bool {
    &&& forall|i: int| 0 <= i < items.len() ==> (#[trigger] items[i]).addr <= 0x7fff
    &&& forall|i: int| 0 <= i < items.len() ==> (#[trigger] items[i]).code.len() % 2 == 0
    &&& forall|i: int|
        0 <= i < items.len() - 1 ==> (#[trigger] items[i]).addr + items[i].code.len() / 2 <= items[
            i + 1
        ].addr
}

/// The formatter's items for an instruction list zipped with its codes.
pub open spec fn rec_items_of(instrs: Seq<SpecInstr>, codes: Seq<Seq<char>>) -> Seq<RecItemV> {
    Seq::new(
        instrs.len(),
        |i: int|
            RecItemV {
                addr: instrs[i].addr,
                mnemonic: instrs[i].mnemonic,
                label: instrs[i].label,
                code: codes[i],
            },
    )
}

/// Well-formedness of an instruction list zipped with its codes.
pub open spec fn records_input_wf(instrs: Seq<SpecInstr>, codes: Seq<Seq<char>>) -> bool {
    instrs.len() == codes.len() && records_wf(rec_items_of(instrs, codes))
}

/// The object records for an instruction list and its codes.
pub open spec fn records_model(instrs: Seq<SpecInstr>, codes: Seq<Seq<char>>) -> Seq<Seq<char>> {
    records_of(rec_items_of(instrs, codes))
}

/// One instruction's worth of formatter input.
pub struct RecItem {
    pub addr: usize,
    pub mnemonic: String,
    pub label: Option<String>,
    pub code: String,
}

impl View for RecItem {
    type V = RecItemV;

    open spec fn view(&self) -> RecItemV {
        RecItemV {
            addr: self.addr as nat,
            mnemonic: self.mnemonic@,
            label: match self.label {
                Some(ref l) => Some(l@),
                None => None,
            },
            code: self.code@,
        }
    }
}

/// The views of a whole item list, in order.
pub open spec fn item_views(s: Seq<RecItem>) -> Seq<RecItemV> {
    s.map_values(|it: RecItem| it@)
}

fn push_spaces(out: &mut Vec<char>, n: usize)
    ensures
        final(out)@ == old(out)@ + spaces(n as nat),
{
    let mut j: usize = 0;
    while j < n
        invariant
            j <= n,
            out@ == old(out)@ + spaces(j as nat),
        decreases n - j,
    {
        out.push(' ');
        proof {
            assert(old(out)@ + spaces(j as nat) + seq![' '] =~= old(out)@ + spaces((j + 1) as nat));
        }
        j += 1;
    }
}

fn flush_buffer(lines: &mut Vec<String>, buf: &mut Vec<char>, addr: usize)
    requires
        old(buf)@.len() / 2 <= addr,
    ensures
        final(buf)@ == Seq::<char>::empty(),
        final(lines).deep_view() == flush_lines(old(lines).deep_view(), old(buf)@, addr as nat),
{
    if buf.len() > 0 {
        let ghost lines_before = lines.deep_view();
        let blen = buf.len() / 2;
        let mut rec: Vec<char> = Vec::new();
        rec.push('T');
        push_hex(&mut rec, addr - blen, 6);
        push_hex(&mut rec, blen, 2);
        let ghost payload = buf@;
        rec.append(buf);
        proof {
            assert(rec@ =~= text_record((addr - blen) as nat, payload));
        }
        lines.push(string_from_chars(&rec));
        proof {
            assert(lines.deep_view() =~~= lines_before.push(
                text_record((addr - payload.len() as int / 2) as nat, payload),
            ));
        }
    }
}

/// Runs the record state machine over the items, returning the records.
#[verifier::rlimit(100)]
pub fn records_build(items: &Vec<RecItem>) -> (r: Vec<String>)
    requires
        records_wf(item_views(items@)),
    ensures
        r.deep_view() == records_of(item_views(items@)),
{
    let ghost itv = item_views(items@);
    let n = items.len();
    let mut lines: Vec<String> = Vec::new();
    let mut pname: String = String::new();
    let mut paddr: usize = 0;
    let mut buf: Vec<char> = Vec::new();
    let mut i: usize = 0;
    proof {
        assert(lines.deep_view() =~~= rec_fold(itv, 0).lines);
        assert(pname@ =~= rec_fold(itv, 0).pname);
        assert(buf@ =~= rec_fold(itv, 0).buf);
    }
    while i < n
        invariant
            n == items@.len(),
            itv.len() == n,
            i <= n,
            pname@ == rec_fold(itv, i as int).pname,
            paddr as nat == rec_fold(itv, i as int).paddr,
            buf@ == rec_fold(itv, i as int).buf,
            lines.deep_view() == rec_fold(itv, i as int).lines,
            paddr <= 0x7fff,
            buf@.len() % 2 == 0,
            i < n ==> paddr as nat <= itv[i as int].addr,
            i < n ==> buf@.len() / 2 <= itv[i as int].addr,
        decreases n - i,
    {
        let ghost st = rec_fold(itv, i as int);
        let ghost st_next = rec_fold(itv, i + 1);
        proof {
            assert(st_next == rec_step(st, itv[i as int]));
            if i + 1 < n {
                assert(itv[i as int].addr + itv[i as int].code.len() / 2 <= itv[i + 1].addr);
            }
        }
        let it = &items[i];
        let m = it.mnemonic.as_str();
        let is_start_labeled = str_eq(m, "START") && it.label.is_some();
        if is_start_labeled {
            pname = match &it.label {
                Some(l) => l.clone(),
                None => {
                    proof {
                        assert(false);
                    }
                    String::new()
                },
            };
            paddr = it.addr;
        } else if str_eq(m, "RESB") || str_eq(m, "RESW") {
            flush_buffer(&mut lines, &mut buf, it.addr);
            push_str_chars(&mut buf, it.code.as_str());
        } else if str_eq(m, "END") {
            flush_buffer(&mut lines, &mut buf, it.addr);
            let mut rec: Vec<char> = Vec::new();
            rec.push('H');
            push_str_chars(&mut rec, pname.as_str());
            let pl = pname.as_str().unicode_len();
            if pl < 6 {
                push_spaces(&mut rec, 6 - pl);
            }
            push_hex(&mut rec, paddr, 6);
            push_hex(&mut rec, it.addr - paddr, 6);
            proof {
                assert(rec@ =~= header_record(st.pname, st.paddr, itv[i as int].addr));
            }
            let ghost lines_flushed = lines.deep_view();
            lines.insert(0, string_from_chars(&rec));
            let mut erec: Vec<char> = Vec::new();
            erec.push('E');
            push_hex(&mut erec, paddr, 6);
            proof {
                assert(erec@ =~= end_record(st.paddr));
            }
            lines.push(string_from_chars(&erec));
            proof {
                assert(lines.deep_view() =~~= seq![header_record(st.pname, st.paddr, itv[i as int].addr)]
                    + lines_flushed + seq![end_record(st.paddr)]);
            }
        } else {
            let clen = it.code.as_str().unicode_len();
            if (buf.len() as u128) + (clen as u128) > 60 {
                flush_buffer(&mut lines, &mut buf, it.addr);
                push_str_chars(&mut buf, it.code.as_str());
            } else {
                push_str_chars(&mut buf, it.code.as_str());
            }
        }
        proof {
            assert(pname@ == st_next.pname);
            assert(paddr as nat == st_next.paddr);
            assert(buf@ == st_next.buf);
            assert(lines.deep_view() == st_next.lines);
        }
        i += 1;
    }
    lines
}

/// Packs the instruction list and its object codes into the ordered object
/// records: the Header record, the Text records in address order, and the
/// End record, exactly as `records_model` describes.
pub fn format_objcode(instructions: &Vec<InstructionType>, objcodes: Vec<String>) -> (r: Vec<
    String,
>)
    requires
        records_input_wf(instr_views(instructions@), objcodes.deep_view()),
    ensures
        r.deep_view() == records_model(instr_views(instructions@), objcodes.deep_view()),
{
    let ghost iv = instr_views(instructions@);
    let ghost cd = objcodes.deep_view();
    let n = instructions.len();
    let mut items: Vec<RecItem> = Vec::new();
    let mut i: usize = 0;
    while i < n
        invariant
            n == instructions@.len(),
            objcodes@.len() == n,
            i <= n,
            item_views(items@) =~~= rec_items_of(iv, cd).subrange(0, i as int),
        decreases n - i,
    {
        let ghost items_before = item_views(items@);
        let code = objcodes[i].clone();
        let item = match &instructions[i] {
            InstructionType::SymbolOpcodeOperand(x) => RecItem {
                addr: x.addr,
                mnemonic: x.opcode.clone(),
                label: Some(x.symbol.clone()),
                code,
            },
            InstructionType::OpcodeOperand(x) => RecItem {
                addr: x.addr,
                mnemonic: x.opcode.clone(),
                label: None,
                code,
            },
            InstructionType::OpcodeOnly(x) => RecItem {
                addr: x.addr,
                mnemonic: x.opcode.clone(),
                label: None,
                code,
            },
        };
        items.push(item);
        proof {
            assert(item_views(items@) =~~= rec_items_of(iv, cd).subrange(0, i + 1));
        }
        i += 1;
    }
    proof {
        assert(item_views(items@) =~~= rec_items_of(iv, cd));
    }
    records_build(&items)
}

} // verus!
