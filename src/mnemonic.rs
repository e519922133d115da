//! The three fixed tables that map a mnemonic to its bit field.
//!
//! A mnemonic that a table does not know maps to the empty field, so that
//! the word it lands in comes out short rather than being refused.

use crate::chars::is_word;
use vstd::prelude::*;

verus! {

/// The seven computation bits (the memory bit first) of a computation mnemonic.
pub open spec fn comp_bits(k: Seq<char>) -> Seq<char> {
    if k == "0"@ {
        "0101010"@
    } else if k == "1"@ {
        "0111111"@
    } else if k == "-1"@ {
        "0111010"@
    } else if k == "D"@ {
        "0001100"@
    } else if k == "A"@ {
        "0110000"@
    } else if k == "!D"@ {
        "0001101"@
    } else if k == "!A"@ {
        "0110001"@
    } else if k == "-D"@ {
        "0001111"@
    } else if k == "-A"@ {
        "0110011"@
    } else if k == "D+1"@ {
        "0011111"@
    } else if k == "A+1"@ {
        "0110111"@
    } else if k == "D-1"@ {
        "0001110"@
    } else if k == "A-1"@ {
        "0110010"@
    } else if k == "D+A"@ {
        "0000010"@
    } else if k == "D-A"@ {
        "0010011"@
    } else if k == "A-D"@ {
        "0000111"@
    } else if k == "D&A"@ {
        "0000000"@
    } else if k == "D|A"@ {
        "0010101"@
    } else if k == "M"@ {
        "1110000"@
    } else if k == "!M"@ {
        "1110001"@
    } else if k == "-M"@ {
        "1110011"@
    } else if k == "M+1"@ {
        "1110111"@
    } else if k == "M-1"@ {
        "1110010"@
    } else if k == "D+M"@ {
        "1000010"@
    } else if k == "D-M"@ {
        "1010011"@
    } else if k == "M-D"@ {
        "1000111"@
    } else if k == "D&M"@ {
        "1000000"@
    } else if k == "D|M"@ {
        "1010101"@
    } else {
        Seq::empty()
    }
}

/// The three destination bits (A, D, M) of a destination mnemonic.
pub open spec fn dest_bits(k: Seq<char>) -> Seq<char> {
    if k == ""@ {
        "000"@
    } else if k == "M"@ {
        "001"@
    } else if k == "D"@ {
        "010"@
    } else if k == "MD"@ {
        "011"@
    } else if k == "A"@ {
        "100"@
    } else if k == "AM"@ {
        "101"@
    } else if k == "AD"@ {
        "110"@
    } else if k == "ADM"@ {
        "111"@
    } else {
        Seq::empty()
    }
}

/// The three jump bits of a jump mnemonic.
pub open spec fn jump_bits(k: Seq<char>) -> Seq<char> {
    if k == ""@ {
        "000"@
    } else if k == "JGT"@ {
        "001"@
    } else if k == "JEQ"@ {
        "010"@
    } else if k == "JGE"@ {
        "011"@
    } else if k == "JLT"@ {
        "100"@
    } else if k == "JNE"@ {
        "101"@
    } else if k == "JLE"@ {
        "110"@
    } else if k == "JMP"@ {
        "111"@
    } else {
        Seq::empty()
    }
}

/// Looks up a computation mnemonic; empty when it is unknown.
pub fn comp_codes(keyword: &[char]) -> (r: &'static str)
    ensures
        r@ == comp_bits(keyword@),
{
    if is_word(keyword, "0") {
        "0101010"
    } else if is_word(keyword, "1") {
        "0111111"
    } else if is_word(keyword, "-1") {
        "0111010"
    } else if is_word(keyword, "D") {
        "0001100"
    } else if is_word(keyword, "A") {
        "0110000"
    } else if is_word(keyword, "!D") {
        "0001101"
    } else if is_word(keyword, "!A") {
        "0110001"
    } else if is_word(keyword, "-D") {
        "0001111"
    } else if is_word(keyword, "-A") {
        "0110011"
    } else if is_word(keyword, "D+1") {
        "0011111"
    } else if is_word(keyword, "A+1") {
        "0110111"
    } else if is_word(keyword, "D-1") {
        "0001110"
    } else if is_word(keyword, "A-1") {
        "0110010"
    } else if is_word(keyword, "D+A") {
        "0000010"
    } else if is_word(keyword, "D-A") {
        "0010011"
    } else if is_word(keyword, "A-D") {
        "0000111"
    } else if is_word(keyword, "D&A") {
        "0000000"
    } else if is_word(keyword, "D|A") {
        "0010101"
    } else if is_word(keyword, "M") {
        "1110000"
    } else if is_word(keyword, "!M") {
        "1110001"
    } else if is_word(keyword, "-M") {
        "1110011"
    } else if is_word(keyword, "M+1") {
        "1110111"
    } else if is_word(keyword, "M-1") {
        "1110010"
    } else if is_word(keyword, "D+M") {
        "1000010"
    } else if is_word(keyword, "D-M") {
        "1010011"
    } else if is_word(keyword, "M-D") {
        "1000111"
    } else if is_word(keyword, "D&M") {
        "1000000"
    } else if is_word(keyword, "D|M") {
        "1010101"
    } else {
        proof {
            reveal_strlit("");
        }
        ""
    }
}

/// Looks up a destination mnemonic; empty when it is unknown.
pub fn dest_codes(keyword: &[char]) -> (r: &'static str)
    ensures
        r@ == dest_bits(keyword@),
{
    if is_word(keyword, "") {
        "000"
    } else if is_word(keyword, "M") {
        "001"
    } else if is_word(keyword, "D") {
        "010"
    } else if is_word(keyword, "MD") {
        "011"
    } else if is_word(keyword, "A") {
        "100"
    } else if is_word(keyword, "AM") {
        "101"
    } else if is_word(keyword, "AD") {
        "110"
    } else if is_word(keyword, "ADM") {
        "111"
    } else {
        proof {
            reveal_strlit("");
        }
        ""
    }
}

/// Looks up a jump mnemonic; empty when it is unknown.
pub fn jump_codes(keyword: &[char]) -> (r: &'static str)
    ensures
        r@ == jump_bits(keyword@),
{
    if is_word(keyword, "") {
        "000"
    } else if is_word(keyword, "JGT") {
        "001"
    } else if is_word(keyword, "JEQ") {
        "010"
    } else if is_word(keyword, "JGE") {
        "011"
    } else if is_word(keyword, "JLT") {
        "100"
    } else if is_word(keyword, "JNE") {
        "101"
    } else if is_word(keyword, "JLE") {
        "110"
    } else if is_word(keyword, "JMP") {
        "111"
    } else {
        proof {
            reveal_strlit("");
        }
        ""
    }
}

} // verus!
