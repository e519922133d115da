use hack_assembler::assembler::parse_program;
use hack_assembler::mnemonic::{comp_codes, dest_codes, jump_codes};
use hack_assembler::source::{parse_label_name, remove_comment, remove_whitespace, split_lines};
use hack_assembler::word::parse_number;

fn chars(s: &str) -> Vec<char> {
    s.chars().collect()
}

fn assemble(s: &str) -> String {
    parse_program(s).expect("program fits")
}

fn a_line(v: u16) -> String {
    format!("0{:015b}\n", v)
}

#[test]
fn predefined_symbols_resolve_to_fixed_addresses() {
    let table: Vec<(&str, u16)> = vec![
        ("R0", 0),
        ("R1", 1),
        ("R2", 2),
        ("R3", 3),
        ("R4", 4),
        ("R5", 5),
        ("R6", 6),
        ("R7", 7),
        ("R8", 8),
        ("R9", 9),
        ("R10", 10),
        ("R11", 11),
        ("R12", 12),
        ("R13", 13),
        ("R14", 14),
        ("R15", 15),
        ("SP", 0),
        ("LCL", 1),
        ("ARG", 2),
        ("THIS", 3),
        ("THAT", 4),
        ("SCREEN", 16384),
        ("KBD", 24576),
    ];
    for (name, addr) in table {
        assert_eq!(assemble(&format!("@{}", name)), a_line(addr), "{}", name);
    }
    assert_eq!(assemble("@SCREEN\n"), "0100000000000000\n");
    assert_eq!(assemble("@KBD\n"), "0110000000000000\n");
}

#[test]
fn label_before_any_instruction_resolves_to_zero() {
    assert_eq!(assemble("(START)\n@START\n0;JMP\n"), format!("{}{}", a_line(0), "1110101010000111\n"));
}

#[test]
fn forward_reference_resolves_to_next_instruction() {
    let out = assemble("@END\n0;JMP\n(END)\n@END\n0;JMP\n");
    let expected = format!("{}1110101010000111\n{}1110101010000111\n", a_line(2), a_line(2));
    assert_eq!(out, expected);
}

#[test]
fn variables_get_addresses_in_first_use_order() {
    let out = assemble("@x\n@y\n@x\n");
    assert_eq!(out, format!("{}{}{}", a_line(16), a_line(17), a_line(16)));
}

#[test]
fn variables_skip_labels_and_predefined_names() {
    let out = assemble("@i\n@LOOP\n(LOOP)\n@R3\n@j\n");
    assert_eq!(out, format!("{}{}{}{}", a_line(16), a_line(2), a_line(3), a_line(17)));
}

#[test]
fn encodes_address_two() {
    assert_eq!(assemble("@2"), "0000000000000010\n");
}

#[test]
fn encodes_d_gets_d_plus_one() {
    assert_eq!(assemble("D=D+1"), "1110011111010000\n");
}

#[test]
fn encodes_unconditional_jump() {
    assert_eq!(assemble("0;JMP"), "1110101010000111\n");
}

#[test]
fn encodes_all_three_fields() {
    assert_eq!(assemble("AM=M-1;JNE"), "1111110010101101\n");
    assert_eq!(assemble("ADM=D|M;JLE"), "1111010101111110\n");
}

#[test]
fn blank_and_comment_lines_produce_nothing() {
    let out = assemble("\n   \n// a comment\n   // another\n(HERE)\n@HERE\n");
    assert_eq!(out, a_line(0));
    assert_eq!(assemble(""), "");
    assert_eq!(assemble("// only a comment"), "");
}

#[test]
fn label_lines_produce_nothing_and_take_no_address() {
    let out = assemble("@1\n(A)\n(B)\n@A\n@B\n");
    assert_eq!(out, format!("{}{}{}", a_line(1), a_line(1), a_line(1)));
}

#[test]
fn assembling_twice_gives_the_same_output() {
    let program = "@x\nD=M\n(LOOP)\n@LOOP\nD;JGT\n@y\nM=D\n";
    let first = parse_program(program);
    let second = parse_program(program);
    assert_eq!(first, second);
    assert!(first.is_some());
}

#[test]
fn spaces_and_trailing_comments_are_removed() {
    assert_eq!(assemble("  D = M   // load\n"), "1111110000010000\n");
    assert_eq!(assemble("@ 1 2 // twelve"), a_line(12));
}

#[test]
fn carriage_returns_before_newlines_are_dropped() {
    assert_eq!(assemble("@1\r\nD=A\r\n"), format!("{}1110110000010000\n", a_line(1)));
}

#[test]
fn unknown_mnemonics_give_short_words() {
    assert_eq!(assemble("D=Q"), "111010000\n");
    assert_eq!(assemble("X=0;JXX"), "1110101010\n");
}

#[test]
fn numbers_past_fifteen_bits_keep_all_digits() {
    assert_eq!(assemble("@32768"), "01000000000000000\n");
    assert_eq!(assemble("@65535"), "01111111111111111\n");
}

#[test]
fn operands_that_are_not_numbers_become_variables() {
    assert_eq!(assemble("@65536"), a_line(16));
    assert_eq!(assemble("@-1"), a_line(16));
    assert_eq!(assemble("@+5"), a_line(5));
    assert_eq!(assemble("@"), a_line(16));
}

#[test]
fn labels_replace_predefined_symbols() {
    assert_eq!(assemble("@0\n(SP)\n@SP\n"), format!("{}{}", a_line(0), a_line(1)));
}

#[test]
fn too_many_instructions_do_not_fit() {
    let just_fits = "D\n".repeat(65535);
    assert!(parse_program(&just_fits).is_some());
    let too_many = "D\n".repeat(65536);
    assert_eq!(parse_program(&too_many), None);
}

#[test]
fn label_names_lose_their_parentheses() {
    assert_eq!(parse_label_name(&chars("(LOOP)")), chars("LOOP"));
    assert_eq!(parse_label_name(&chars("((X))")), chars("X"));
    assert_eq!(assemble("@1\n((X))\n@X\n"), format!("{}{}", a_line(1), a_line(1)));
}

#[test]
fn lines_are_cleaned() {
    assert_eq!(remove_whitespace(&chars(" A M = D ")), chars("AM=D"));
    assert_eq!(remove_comment(&chars("D=M//x//y")), chars("D=M"));
    assert_eq!(remove_comment(&chars("D=M/x")), chars("D=M/x"));
}

#[test]
fn text_splits_into_lines() {
    let ls = split_lines(&chars("a\r\nb\n\nc"));
    assert_eq!(ls, vec![chars("a"), chars("b"), chars(""), chars("c")]);
    assert_eq!(split_lines(&chars("a\n")), vec![chars("a")]);
    assert!(split_lines(&chars("")).is_empty());
}

#[test]
fn numbers_are_read_as_sixteen_bit_decimals() {
    assert_eq!(parse_number(&chars("0")), Some(0));
    assert_eq!(parse_number(&chars("007")), Some(7));
    assert_eq!(parse_number(&chars("+65535")), Some(65535));
    assert_eq!(parse_number(&chars("65536")), None);
    assert_eq!(parse_number(&chars("+")), None);
    assert_eq!(parse_number(&chars("1a")), None);
}

#[test]
fn mnemonic_tables() {
    assert_eq!(comp_codes(&chars("D+1")), "0011111");
    assert_eq!(comp_codes(&chars("D|M")), "1010101");
    assert_eq!(comp_codes(&chars("D+D")), "");
    assert_eq!(dest_codes(&chars("")), "000");
    assert_eq!(dest_codes(&chars("ADM")), "111");
    assert_eq!(dest_codes(&chars("DA")), "");
    assert_eq!(jump_codes(&chars("JMP")), "111");
    assert_eq!(jump_codes(&chars("JGE")), "011");
    assert_eq!(jump_codes(&chars("jmp")), "");
}
