use sicasm::instruction::Instruction;
use sicasm::instruction_opcode_only::InstructionOpcodeOnly;
use sicasm::instruction_opcode_operand::InstructionOpcodeOperand;
use sicasm::instruction_symbol_opcode_operand::InstructionSymbolOpcodeOperand;
use sicasm::symbol_mapping::SymbolMapping;

#[test]
fn test_instruction_opcode_only() {
    let instruction = InstructionOpcodeOnly::new(1, 0, "RSUB");
    assert_eq!(instruction.to_line(), "0000\t\tRSUB\t");
}

#[test]
fn test_instruction_opcode_operand() {
    let instruction = InstructionOpcodeOperand::new(1, 0, "LDA", "#4096");
    assert_eq!(instruction.to_line(), "0000\t\tLDA\t#4096");
}

#[test]
fn test_instruction_symbol_opcode_operand() {
    let instruction = InstructionSymbolOpcodeOperand::new(1, 0, "LOOP", "JSUB", "RDREC");
    assert_eq!(instruction.to_line(), "0000\tLOOP\tJSUB\tRDREC");
}

#[test]
fn test_symbol_mapping() {
    let mapping = SymbolMapping::new("LOOP", 0);
    assert_eq!(mapping.to_line(), "LOOP\t0000");
}

#[test]
fn flat_instruction_lines() {
    let bare = Instruction::new(0, None, "RSUB".to_string(), None);
    assert_eq!(bare.to_line(), "0000\t\tRSUB\t");
    let labeled = Instruction::new(
        0x1003,
        Some("LOOP".to_string()),
        "TIX".to_string(),
        Some("COUNT".to_string()),
    );
    assert_eq!(labeled.to_line(), "1003\tLOOP\tTIX\tCOUNT");
    let plain = Instruction::new(0x7FFF, None, "LDA".to_string(), Some("ALPHA".to_string()));
    assert_eq!(plain.to_line(), "7FFF\t\tLDA\tALPHA");
}
