//! Operand micro-grammars: `BYTE` literals, indexed addressing suffixes, and
//! the per-directive location-counter advance.

use vstd::prelude::*;
use crate::errors::{AsmError, SpecErr};
use crate::numerals::{dec_val, is_dec_str, is_hex_digit};
use crate::text::str_eq;
use vstd::string::StrSliceExecFns;

verus! {

/// A parsed `BYTE` operand: the digits of `X'<hex>'` or the characters of
/// `C'<chars>'`.
pub ghost enum ByteOp {
    Hex(Seq<char>),
    Chars(Seq<char>),
}

/// Parses a `BYTE` operand. `X'<hex>'` requires an even number of upper-case
/// hex digits; `C'<chars>'` takes its characters verbatim. The payload may
/// not contain a quote, and anything else is rejected.
pub open spec fn parse_byte_operand(op: Seq<char>) -> Option<ByteOp> {
    if op.len() >= 3 && op[1] == '\'' && op[op.len() - 1] == '\'' && (forall|i: int|
        2 <= i < op.len() - 1 ==> op[i] != '\'') {
        let payload = op.subrange(2, op.len() - 1);
        if op[0] == 'X' && payload.len() % 2 == 0 && (forall|i: int|
            0 <= i < payload.len() ==> is_hex_digit(payload[i])) {
            Some(ByteOp::Hex(payload))
        } else if op[0] == 'C' {
            Some(ByteOp::Chars(payload))
        } else {
            None
        }
    } else {
        None
    }
}

/// Splits an operand into its symbol name and the indexed-addressing flag:
/// a trailing `,X` marks indexed addressing, anything else is taken whole as
/// a symbol name.
pub open spec fn split_index_operand(t: Seq<char>) -> (Seq<char>, bool) {
    if t.len() >= 2 && t[t.len() - 2] == ',' && t[t.len() - 1] == 'X' {
        (t.subrange(0, t.len() - 2), true)
    } else {
        (t, false)
    }
}

/// Caps a mathematical counter value at what `usize` can hold.
pub open spec fn sat_cap(x: nat) -> nat {
    if x > usize::MAX {
        usize::MAX as nat
    } else {
        x
    }
}

/// How far a line advances the location counter, by its mnemonic: `BYTE`
/// by its literal's byte count, `WORD` by 3, `RESB`/`RESW` by `n`/`3n` for a
/// decimal operand `n`, and every other mnemonic by one 3-byte word.
pub open spec fn spec_advance(
    m: Seq<char>,
    operand: Option<Seq<char>>,
    line: nat,
    raw: Seq<char>,
) -> Result<nat, SpecErr> {
    if m == "BYTE"@ {
        match operand {
            None => Err(SpecErr::InvalidByte { line, operand: seq![] }),
            Some(op) => match parse_byte_operand(op) {
                Some(ByteOp::Hex(h)) => Ok((h.len() / 2) as nat),
                Some(ByteOp::Chars(c)) => Ok(c.len()),
                None => Err(SpecErr::InvalidByte { line, operand: op }),
            },
        }
    } else if m == "WORD"@ {
        Ok(3)
    } else if m == "RESB"@ {
        match operand {
            None => Err(SpecErr::BadNumber { line, text: seq![] }),
            Some(op) => if is_dec_str(op) && dec_val(op) <= usize::MAX {
                Ok(dec_val(op))
            } else {
                Err(SpecErr::BadNumber { line, text: op })
            },
        }
    } else if m == "RESW"@ {
        match operand {
            None => Err(SpecErr::BadNumber { line, text: seq![] }),
            Some(op) => if is_dec_str(op) && dec_val(op) <= usize::MAX {
                Ok(3 * dec_val(op))
            } else {
                Err(SpecErr::BadNumber { line, text: op })
            },
        }
    } else {
        Ok(3)
    }
}

/// Whether a recorded instruction has a well-defined counter advance.
pub open spec fn advance_ok(m: Seq<char>, operand: Option<Seq<char>>) -> bool {
    spec_advance(m, operand, 0, seq![]) is Ok
}

/// The counter advance of a recorded instruction.
pub open spec fn advance_val(m: Seq<char>, operand: Option<Seq<char>>) -> nat {
    spec_advance(m, operand, 0, seq![])->Ok_0
}

/// Whether an advance exists, and how far, depends only on the mnemonic and
/// the operand; the line number and raw text only decorate the error.
pub proof fn lemma_advance_line_indep(
    m: Seq<char>,
    operand: Option<Seq<char>>,
    line: nat,
    raw: Seq<char>,
)
    ensures
        spec_advance(m, operand, line, raw) is Ok <==> advance_ok(m, operand),
        spec_advance(m, operand, line, raw) is Ok ==> spec_advance(m, operand, line, raw)->Ok_0
            == advance_val(m, operand),
{
}

fn is_hex_digit_char(c: char) -> (r: bool)
    ensures
        r == is_hex_digit(c),
{
    ('0' <= c && c <= '9') || ('A' <= c && c <= 'F')
}

/// Parses a `BYTE` operand into its kind flag (`true` for `X`) and payload.
pub fn parse_byte(op: &str) -> (r: Option<(bool, String)>)
    ensures
        match r {
            Some(p) => parse_byte_operand(op@) == if p.0 {
                Some(ByteOp::Hex(p.1@))
            } else {
                Some(ByteOp::Chars(p.1@))
            },
            None => parse_byte_operand(op@) is None,
        },
{
    let n = op.unicode_len();
    if n < 3 {
        return None;
    }
    let c0 = op.get_char(0);
    if op.get_char(1) != '\'' || op.get_char(n - 1) != '\'' {
        return None;
    }
    let mut i: usize = 2;
    while i < n - 1
        invariant
            n == op@.len(),
            3 <= n,
            2 <= i <= n - 1,
            forall|j: int| 2 <= j < i ==> op@[j] != '\'',
        decreases n - i,
    {
        if op.get_char(i) == '\'' {
            return None;
        }
        i += 1;
    }
    let payload = op.substring_char(2, n - 1).to_owned();
    proof {
        assert(payload@ == op@.subrange(2, n - 1));
    }
    if c0 == 'X' {
        if payload.as_str().unicode_len() % 2 != 0 {
            return None;
        }
        let plen = payload.as_str().unicode_len();
        let mut k: usize = 0;
        while k < plen
            invariant
                plen == payload@.len(),
                k <= plen,
                forall|j: int| 0 <= j < k ==> is_hex_digit(payload@[j]),
            decreases plen - k,
        {
            if !is_hex_digit_char(payload.as_str().get_char(k)) {
                proof {
                    assert(!is_hex_digit(op@.subrange(2, n - 1)[k as int]));
                }
                return None;
            }
            k += 1;
        }
        Some((true, payload))
    } else if c0 == 'C' {
        Some((false, payload))
    } else {
        None
    }
}

/// Computes the location-counter advance for one line, capping what does not
/// fit in `usize`; anything past the address range fails at the next
/// significant line.
pub fn advance_amount(m: &str, operand: Option<&String>, line: usize, raw: &str) -> (r: Result<
    usize,
    AsmError,
>)
    ensures
        ({
            let opv = match operand {
                Some(o) => Some(o@),
                None => None,
            };
            let s = spec_advance(m@, opv, line as nat, raw@);
            match r {
                Ok(a) => s is Ok && a as nat == sat_cap(s->Ok_0),
                Err(e) => s == Err::<nat, SpecErr>(e@),
            }
        }),
{
    if str_eq(m, "BYTE") {
        match operand {
            None => {
                let empty = String::new();
                proof {
                    assert(empty@ =~= seq![]);
                }
                Err(AsmError::InvalidByteOperand { line, operand: empty })
            },
            Some(op) => match parse_byte(op.as_str()) {
                Some(p) => {
                    let (is_hex, payload) = p;
                    if is_hex {
                        Ok(payload.as_str().unicode_len() / 2)
                    } else {
                        Ok(payload.as_str().unicode_len())
                    }
                },
                None => Err(AsmError::InvalidByteOperand { line, operand: op.clone() }),
            },
        }
    } else if str_eq(m, "WORD") {
        Ok(3)
    } else if str_eq(m, "RESB") {
        match operand {
            None => {
                let empty = String::new();
                proof {
                    assert(empty@ =~= seq![]);
                }
                Err(AsmError::NumericParseFailure { line, text: empty })
            },
            Some(op) => match crate::numerals::parse_dec(op.as_str()) {
                Some(v) => Ok(v),
                None => Err(AsmError::NumericParseFailure { line, text: op.clone() }),
            },
        }
    } else if str_eq(m, "RESW") {
        match operand {
            None => {
                let empty = String::new();
                proof {
                    assert(empty@ =~= seq![]);
                }
                Err(AsmError::NumericParseFailure { line, text: empty })
            },
            Some(op) => match crate::numerals::parse_dec(op.as_str()) {
                Some(v) => match v.checked_mul(3) {
                    Some(w) => Ok(w),
                    None => Ok(usize::MAX),
                },
                None => Err(AsmError::NumericParseFailure { line, text: op.clone() }),
            },
        }
    } else {
        Ok(3)
    }
}

} // verus!
