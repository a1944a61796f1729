use sicasm::errors::AsmError;
use sicasm::format_objcode::format_objcode;
use sicasm::instruction::Instruction;
use sicasm::instruction_type::InstructionType;
use sicasm::opcode_table::OpcodeTable;
use sicasm::parse_sic;
use sicasm::pass1::pass1;
use sicasm::pass2::pass2;

fn table() -> OpcodeTable {
    let mut t = OpcodeTable::new();
    t.insert("LDA", 0x00);
    t.insert("LDX", 0x04);
    t.insert("STA", 0x0C);
    t.insert("STX", 0x10);
    t.insert("TIX", 0x2C);
    t.insert("JSUB", 0x48);
    t.insert("RSUB", 0x4C);
    t.insert("LDCH", 0x50);
    t.insert("STCH", 0x54);
    t
}

fn lines(src: &[&str]) -> Vec<String> {
    src.iter().map(|s| s.to_string()).collect()
}

fn addr_of(ins: &InstructionType) -> usize {
    match ins {
        InstructionType::SymbolOpcodeOperand(x) => x.addr,
        InstructionType::OpcodeOperand(x) => x.addr,
        InstructionType::OpcodeOnly(x) => x.addr,
    }
}

#[test]
fn end_to_end_copy_program() {
    let src = lines(&[
        "COPY  START 1000",
        "FIRST LDA   ALPHA",
        "      STA   BETA",
        "ALPHA WORD  5",
        "BETA  RESW  1",
        "      END   FIRST",
    ]);
    let a = parse_sic(&src, &table()).unwrap();

    let addrs: Vec<usize> = a.instructions.iter().map(addr_of).collect();
    assert_eq!(addrs, vec![0x1000, 0x1000, 0x1003, 0x1006, 0x1009, 0x100C]);

    assert_eq!(a.symtab.len(), 3);
    assert_eq!(a.symtab[0].symbol, "FIRST");
    assert_eq!(a.symtab[0].addr, 0x1000);
    assert_eq!(a.symtab[1].symbol, "ALPHA");
    assert_eq!(a.symtab[1].addr, 0x1006);
    assert_eq!(a.symtab[2].symbol, "BETA");
    assert_eq!(a.symtab[2].addr, 0x1009);

    assert_eq!(a.objcodes, vec!["", "001006", "0C1009", "000005", "", ""]);

    assert_eq!(
        a.object_lines,
        vec!["HCOPY  00100000000C", "T001000090010060C1009000005", "E001000"]
    );

    assert_eq!(a.loc_lines[0], "1000\tCOPY\tSTART\t1000");
    assert_eq!(a.loc_lines[1], "1000\tFIRST\tLDA\tALPHA");
    assert_eq!(a.loc_lines[2], "1003\t\tSTA\tBETA");
    assert_eq!(a.output_lines[1], "1000\tFIRST\tLDA\tALPHA\t001006");
    assert_eq!(a.output_lines[4], "1009\tBETA\tRESW\t1\t");
}

#[test]
fn overflow_fails_at_first_offending_line() {
    let src = lines(&["P START 7FFD", "  LDA A", "A WORD 1", "  END A"]);
    let e = parse_sic(&src, &table()).unwrap_err();
    match e {
        AsmError::AddressOverflow { line, text } => {
            assert_eq!(line, 3);
            assert_eq!(text, "A WORD 1");
        },
        other => panic!("expected AddressOverflow, got {}", other.message()),
    }
}

#[test]
fn start_address_at_limit_is_accepted() {
    let src = lines(&["P START 7FFF", "  END P"]);
    let a = parse_sic(&src, &table()).unwrap();
    assert_eq!(addr_of(&a.instructions[0]), 0x7FFF);
    assert_eq!(a.object_lines, vec!["HP     007FFF000000", "E007FFF"]);
}

#[test]
fn missing_start_directive() {
    let src = lines(&["  LDA ALPHA"]);
    let e = parse_sic(&src, &table()).unwrap_err();
    assert!(matches!(e, AsmError::MissingStartDirective));

    let empty = lines(&[]);
    let e2 = parse_sic(&empty, &table()).unwrap_err();
    assert!(matches!(e2, AsmError::MissingStartDirective));

    let comment_only = lines(&[". just a comment", "   "]);
    let e3 = parse_sic(&comment_only, &table()).unwrap_err();
    assert!(matches!(e3, AsmError::MissingStartDirective));
}

#[test]
fn comments_and_blank_lines_are_skipped() {
    let src = lines(&[
        ". header comment",
        "",
        "C START 1000",
        ". interior comment does not advance the counter",
        "   ",
        "F WORD 1",
        "  END C",
    ]);
    let a = parse_sic(&src, &table()).unwrap();
    let addrs: Vec<usize> = a.instructions.iter().map(addr_of).collect();
    assert_eq!(addrs, vec![0x1000, 0x1000, 0x1003]);
    assert_eq!(a.symtab.len(), 1);
    assert_eq!(a.symtab[0].symbol, "F");
}

#[test]
fn invalid_instruction_shape() {
    let src = lines(&["C START 1000", "A B C D"]);
    let e = parse_sic(&src, &table()).unwrap_err();
    match e {
        AsmError::InvalidInstructionShape { line, text } => {
            assert_eq!(line, 2);
            assert_eq!(text, "A B C D");
        },
        other => panic!("unexpected error: {}", other.message()),
    }
}

#[test]
fn invalid_byte_operand() {
    let src = lines(&["C START 1000", "B BYTE Q'12'"]);
    let e = parse_sic(&src, &table()).unwrap_err();
    match e {
        AsmError::InvalidByteOperand { line, operand } => {
            assert_eq!(line, 2);
            assert_eq!(operand, "Q'12'");
        },
        other => panic!("unexpected error: {}", other.message()),
    }

    // an odd number of hex digits is not a whole number of bytes
    let odd = lines(&["C START 1000", "B BYTE X'ABC'"]);
    assert!(matches!(
        parse_sic(&odd, &table()).unwrap_err(),
        AsmError::InvalidByteOperand { line: 2, .. }
    ));
}

#[test]
fn unknown_opcode() {
    let src = lines(&["C START 1000", "  FROB ALPHA"]);
    let e = parse_sic(&src, &table()).unwrap_err();
    match e {
        AsmError::UnknownOpcode { line, mnemonic } => {
            assert_eq!(line, 2);
            assert_eq!(mnemonic, "FROB");
        },
        other => panic!("unexpected error: {}", other.message()),
    }
}

#[test]
fn undefined_symbol() {
    let src = lines(&["C START 1000", "  LDA NOPE", "  END C"]);
    let e = parse_sic(&src, &table()).unwrap_err();
    match e {
        AsmError::UndefinedSymbol { line, symbol } => {
            assert_eq!(line, 2);
            assert_eq!(symbol, "NOPE");
        },
        other => panic!("unexpected error: {}", other.message()),
    }
}

#[test]
fn numeric_parse_failure() {
    let src = lines(&["C START 1000", "R RESB 12X3"]);
    let e = parse_sic(&src, &table()).unwrap_err();
    match e {
        AsmError::NumericParseFailure { line, text } => {
            assert_eq!(line, 2);
            assert_eq!(text, "12X3");
        },
        other => panic!("unexpected error: {}", other.message()),
    }

    // a START operand that is not a base-16 literal
    let bad_start = lines(&["C START 10G0"]);
    assert!(matches!(
        parse_sic(&bad_start, &table()).unwrap_err(),
        AsmError::NumericParseFailure { line: 1, .. }
    ));
}

#[test]
fn error_messages_carry_line_and_text() {
    let src = lines(&["P START 7FFD", "  LDA A", "A WORD 1", "  END A"]);
    let e = parse_sic(&src, &table()).unwrap_err();
    assert_eq!(e.message(), "error: instruction overflow at line 3: A WORD 1");

    let m = AsmError::MissingStartDirective.message();
    assert_eq!(m, "error: missing START directive on the first line");
}

#[test]
fn byte_hex_emits_digits_unchanged() {
    let src = lines(&["C START 1000", "B BYTE X'0A0B'", "D WORD 7", "  END C"]);
    let a = parse_sic(&src, &table()).unwrap();
    assert_eq!(a.objcodes, vec!["", "0A0B", "000007", ""]);
    // the advance is half the digit count: D sits two bytes after B
    let addrs: Vec<usize> = a.instructions.iter().map(addr_of).collect();
    assert_eq!(addrs, vec![0x1000, 0x1000, 0x1002, 0x1005]);
}

#[test]
fn byte_chars_encodes_each_character() {
    let src = lines(&["C START 1000", "B BYTE C'EOF'", "D WORD 7", "  END C"]);
    let a = parse_sic(&src, &table()).unwrap();
    assert_eq!(a.objcodes, vec!["", "454F46", "000007", ""]);
    // three characters advance the counter by three
    let addrs: Vec<usize> = a.instructions.iter().map(addr_of).collect();
    assert_eq!(addrs, vec![0x1000, 0x1000, 0x1003, 0x1006]);
}

#[test]
fn word_resb_resw_advances_and_codes() {
    let src = lines(&[
        "C START 100",
        "W WORD 66",
        "R RESB 5",
        "S RESW 2",
        "T WORD 16777215",
        "  END C",
    ]);
    let a = parse_sic(&src, &table()).unwrap();
    let addrs: Vec<usize> = a.instructions.iter().map(addr_of).collect();
    assert_eq!(addrs, vec![0x100, 0x100, 0x103, 0x108, 0x10E, 0x111]);
    assert_eq!(a.objcodes, vec!["", "000042", "", "", "FFFFFF", ""]);
}

#[test]
fn word_value_beyond_three_bytes_is_rejected() {
    let src = lines(&["C START 100", "W WORD 16777216", "  END C"]);
    let e = parse_sic(&src, &table()).unwrap_err();
    assert!(matches!(e, AsmError::NumericParseFailure { line: 2, .. }));
}

#[test]
fn indexed_addressing_adds_the_flag_bit() {
    let src = lines(&["C START 1000", "F LDA T,X", "T WORD 1", "  END C"]);
    let a = parse_sic(&src, &table()).unwrap();
    // target = address of T (0x1003) + 0x8000
    assert_eq!(a.objcodes, vec!["", "009003", "000001", ""]);
}

#[test]
fn bare_mnemonic_targets_address_zero() {
    let src = lines(&["C START 1000", "  RSUB", "  END C"]);
    let a = parse_sic(&src, &table()).unwrap();
    assert_eq!(a.objcodes, vec!["", "4C0000", ""]);
}

#[test]
fn lower_case_source_is_normalized() {
    let src = lines(&["copy start 1000", "first lda alpha", "alpha word 5", "  end first"]);
    let a = parse_sic(&src, &table()).unwrap();
    assert_eq!(a.objcodes, vec!["", "001003", "000005", ""]);
    assert_eq!(a.symtab[0].symbol, "FIRST");
}

#[test]
fn duplicate_symbols_resolve_to_first_definition() {
    let src = lines(&["C START 1000", "A WORD 1", "A WORD 2", "F LDA A", "  END C"]);
    let a = parse_sic(&src, &table()).unwrap();
    // A is defined at 0x1000 and again at 0x1003; the first definition wins
    assert_eq!(a.objcodes, vec!["", "000001", "000002", "001000", ""]);
}

#[test]
fn text_records_break_at_sixty_hex_digits() {
    let src = lines(&[
        "C  START 0",
        "V1 WORD 1",
        "V2 WORD 2",
        "V3 WORD 3",
        "V4 WORD 4",
        "V5 WORD 5",
        "V6 WORD 6",
        "V7 WORD 7",
        "V8 WORD 8",
        "V9 WORD 9",
        "VA WORD 10",
        "VB WORD 11",
        "   END C",
    ]);
    let a = parse_sic(&src, &table()).unwrap();
    // ten words fill a 30-byte record; the eleventh starts a new one
    assert_eq!(
        a.object_lines,
        vec![
            "HC     000000000021",
            "T0000001E00000100000200000300000400000500000600000700000800000900000A",
            "T00001E0300000B",
            "E000000"
        ]
    );
}

#[test]
fn reserve_directives_force_a_record_break() {
    let src = lines(&["C START 0", "A WORD 1", "G RESB 4", "B WORD 2", "  END C"]);
    let a = parse_sic(&src, &table()).unwrap();
    assert_eq!(
        a.object_lines,
        vec!["HC     00000000000A", "T00000003000001", "T00000703000002", "E000000"]
    );
}

#[test]
fn parse_into_vec_classifies_and_addresses() {
    let src = lines(&["COPY START 1000", "FIRST LDA ALPHA", "ALPHA WORD 5", "  END FIRST"]);
    let v = Instruction::parse_into_vec(&src).unwrap();
    assert_eq!(v.len(), 4);
    assert_eq!(v[0].loc, 0x1000);
    assert_eq!(v[0].symbol.as_deref(), Some("COPY"));
    assert_eq!(v[0].opcode, "START");
    assert_eq!(v[1].loc, 0x1000);
    assert_eq!(v[2].loc, 0x1003);
    assert_eq!(v[3].loc, 0x1006);
    assert_eq!(v[3].symbol, None);
    assert_eq!(v[3].operand.as_deref(), Some("FIRST"));
}

#[test]
fn obj_code_resolves_one_instruction() {
    let symtab: Vec<(String, usize)> = vec![("ALPHA".to_string(), 0x1006)];
    let ins = Instruction::new(
        0x1000,
        None,
        "LDA".to_string(),
        Some("ALPHA".to_string()),
    );
    assert_eq!(ins.obj_code(&symtab, &table()).unwrap(), "001006");

    let indexed = Instruction::new(
        0x1000,
        None,
        "STA".to_string(),
        Some("ALPHA,X".to_string()),
    );
    assert_eq!(indexed.obj_code(&symtab, &table()).unwrap(), "0C9006");

    let bad = Instruction::new(0x1000, None, "FROB".to_string(), None);
    assert!(matches!(
        bad.obj_code(&symtab, &table()).unwrap_err(),
        AsmError::UnknownOpcode { .. }
    ));
}

#[test]
fn generate_objcode_joins_the_records() {
    let src = lines(&[
        "COPY  START 1000",
        "FIRST LDA   ALPHA",
        "      STA   BETA",
        "ALPHA WORD  5",
        "BETA  RESW  1",
        "      END   FIRST",
    ]);
    let v = Instruction::parse_into_vec(&src).unwrap();
    let a = parse_sic(&src, &table()).unwrap();
    let joined = Instruction::generate_objcode(v, a.objcodes);
    assert_eq!(
        joined,
        "HCOPY  00100000000C\nT001000090010060C1009000005\nE001000"
    );
}

#[test]
fn passes_compose_into_the_object_program() {
    let src = lines(&[
        "COPY  START 1000",
        "FIRST LDA   ALPHA",
        "      STA   BETA",
        "ALPHA WORD  5",
        "BETA  RESW  1",
        "      END   FIRST",
    ]);
    let (instructions, symtab) = pass1(&src).unwrap();
    assert_eq!(symtab.len(), 3);
    let codes = pass2(&instructions, &symtab, &table()).unwrap();
    assert_eq!(codes, vec!["", "001006", "0C1009", "000005", "", ""]);
    let records = format_objcode(&instructions, codes);
    assert_eq!(
        records,
        vec!["HCOPY  00100000000C", "T001000090010060C1009000005", "E001000"]
    );
}

#[test]
fn opcode_table_first_entry_wins() {
    let mut t = OpcodeTable::new();
    t.insert("LDA", 0x00);
    t.insert("LDA", 0x77);
    assert_eq!(t.lookup("LDA"), Some(0x00));
    assert_eq!(t.lookup("STA"), None);
}
