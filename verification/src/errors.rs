//! The assembler's fatal errors. Every error carries the 1-based source line
//! number it was raised at and the text that provoked it, where available.

use vstd::prelude::*;
use crate::numerals::dec_fmt;
use crate::text::{push_str_chars, string_from_chars};

verus! {

/// The mathematical shape of an assembler error.
pub ghost enum SpecErr {
    MissingStart,
    InvalidShape { line: nat, text: Seq<char> },
    InvalidByte { line: nat, operand: Seq<char> },
    Overflow { line: nat, text: Seq<char> },
    UnknownOpcode { line: nat, mnemonic: Seq<char> },
    UndefinedSymbol { line: nat, symbol: Seq<char> },
    BadNumber { line: nat, text: Seq<char> },
}

/// A fatal assembly error; the assembler stops at the first one.
#[derive(Debug)]
pub enum AsmError {
    /// The first significant line is not a three-field `START` directive.
    MissingStartDirective,
    /// A line has a field count other than 1, 2 or 3.
    InvalidInstructionShape { line: usize, text: String },
    /// A `BYTE` operand is not `X'<even hex digits>'` or `C'<characters>'`.
    InvalidByteOperand { line: usize, operand: String },
    /// The location counter left the 15-bit address range.
    AddressOverflow { line: usize, text: String },
    /// A mnemonic that is not a directive and not in the opcode table.
    UnknownOpcode { line: usize, mnemonic: String },
    /// An operand names a symbol absent from the symbol table.
    UndefinedSymbol { line: usize, symbol: String },
    /// A decimal or hexadecimal literal operand failed to parse.
    NumericParseFailure { line: usize, text: String },
}

impl View for AsmError {
    type V = SpecErr;

    open spec fn view(&self) -> SpecErr {
        match self {
            AsmError::MissingStartDirective => SpecErr::MissingStart,
            AsmError::InvalidInstructionShape { line, text } => SpecErr::InvalidShape {
                line: *line as nat,
                text: text@,
            },
            AsmError::InvalidByteOperand { line, operand } => SpecErr::InvalidByte {
                line: *line as nat,
                operand: operand@,
            },
            AsmError::AddressOverflow { line, text } => SpecErr::Overflow {
                line: *line as nat,
                text: text@,
            },
            AsmError::UnknownOpcode { line, mnemonic } => SpecErr::UnknownOpcode {
                line: *line as nat,
                mnemonic: mnemonic@,
            },
            AsmError::UndefinedSymbol { line, symbol } => SpecErr::UndefinedSymbol {
                line: *line as nat,
                symbol: symbol@,
            },
            AsmError::NumericParseFailure { line, text } => SpecErr::BadNumber {
                line: *line as nat,
                text: text@,
            },
        }
    }
}

/// The one-line report for an error.
pub open spec fn spec_message(e: SpecErr) -> Seq<char> {
    match e {
        SpecErr::MissingStart => "error: missing START directive on the first line"@,
        SpecErr::InvalidShape { line, text } => "error: invalid instruction at line "@ + dec_fmt(
            line,
        ) + ": "@ + text,
        SpecErr::InvalidByte { line, operand } => "error: invalid BYTE operand at line "@
            + dec_fmt(line) + ": "@ + operand,
        SpecErr::Overflow { line, text } => "error: instruction overflow at line "@ + dec_fmt(line)
            + ": "@ + text,
        SpecErr::UnknownOpcode { line, mnemonic } => "error: invalid opcode at line "@ + dec_fmt(
            line,
        ) + ": "@ + mnemonic,
        SpecErr::UndefinedSymbol { line, symbol } => "error: undefined symbol at line "@ + dec_fmt(
            line,
        ) + ": "@ + symbol,
        SpecErr::BadNumber { line, text } => "error: invalid numeric literal at line "@ + dec_fmt(
            line,
        ) + ": "@ + text,
    }
}

fn push_located(out: &mut Vec<char>, head: &str, line: usize, tail: &str, detail: &str)
    ensures
        final(out)@ == old(out)@ + head@ + dec_fmt(line as nat) + tail@ + detail@,
{
    push_str_chars(out, head);
    crate::numerals::push_dec(out, line);
    push_str_chars(out, tail);
    push_str_chars(out, detail);
}

impl AsmError {
    /// Renders the error as the one-line report the driver prints.
    pub fn message(&self) -> (r: String)
        ensures
            r@ == spec_message(self@),
    {
        let mut out: Vec<char> = Vec::new();
        match self {
            AsmError::MissingStartDirective => {
                push_str_chars(&mut out, "error: missing START directive on the first line");
            },
            AsmError::InvalidInstructionShape { line, text } => {
                push_located(&mut out, "error: invalid instruction at line ", *line, ": ", text.as_str());
            },
            AsmError::InvalidByteOperand { line, operand } => {
                push_located(&mut out, "error: invalid BYTE operand at line ", *line, ": ", operand.as_str());
            },
            AsmError::AddressOverflow { line, text } => {
                push_located(&mut out, "error: instruction overflow at line ", *line, ": ", text.as_str());
            },
            AsmError::UnknownOpcode { line, mnemonic } => {
                push_located(&mut out, "error: invalid opcode at line ", *line, ": ", mnemonic.as_str());
            },
            AsmError::UndefinedSymbol { line, symbol } => {
                push_located(&mut out, "error: undefined symbol at line ", *line, ": ", symbol.as_str());
            },
            AsmError::NumericParseFailure { line, text } => {
                push_located(&mut out, "error: invalid numeric literal at line ", *line, ": ", text.as_str());
            },
        }
        string_from_chars(&out)
    }
}

} // verus!
