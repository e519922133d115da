//! The two passes: labels first, then one word per instruction.

use crate::chars::copy_range;
use crate::source::{
    clean, clean_line, is_a_instruction, is_instruction, is_label, label_name, lines_of,
    parse_label_name, spec_is_a_instruction, spec_is_instruction, spec_is_label, split_lines,
    text_chars, views, lemma_views_push,
};
use crate::symbols::{predefined, SymbolTable};
use crate::word::{a_word, c_word, parse_c_instruction, parse_number, push_a_word, spec_parse_number};
use vstd::prelude::*;

verus! {

/// The lowest address that a variable gets.
pub const FIRST_VARIABLE: u32 = 16;

/// The clean lines of a source text.
pub open spec fn clean_lines(t: Seq<char>) -> Seq<Seq<char>> {
    lines_of(t).map_values(|l: Seq<char>| clean(l))
}

/// The symbols after the first pass over the clean lines `ls`, and the
/// number of instructions among them: a label is bound to the number of
/// instructions before it.
pub open spec fn first_pass(ls: Seq<Seq<char>>) -> (Map<Seq<char>, u16>, int)
    decreases ls.len(),
{
    if ls.len() == 0 {
        (predefined(), 0)
    } else {
        let (m, n) = first_pass(ls.drop_last());
        let l = ls.last();
        if spec_is_label(l) {
            (m.insert(label_name(l), n as u16), n)
        } else if spec_is_instruction(l) {
            (m, n + 1)
        } else {
            (m, n)
        }
    }
}

/// What one instruction `l` encodes to, with the symbols `m` and the next
/// free variable address `next`, and the symbols and next free address after it.
pub open spec fn encode(l: Seq<char>, m: Map<Seq<char>, u16>, next: int) -> (
    Seq<char>,
    Map<Seq<char>, u16>,
    int,
) {
    if spec_is_a_instruction(l) {
        let v = l.drop_first();
        match spec_parse_number(v) {
            Some(x) => (a_word(x), m, next),
            None => if m.contains_key(v) {
                (a_word(m[v]), m, next)
            } else {
                (a_word(next as u16), m.insert(v, next as u16), next + 1)
            },
        }
    } else {
        (c_word(l), m, next)
    }
}

/// The output, the symbols and the next free variable address after the
/// second pass over the clean lines `ls`, which starts with the symbols `m0`.
pub open spec fn second_pass(ls: Seq<Seq<char>>, m0: Map<Seq<char>, u16>) -> (
    Seq<char>,
    Map<Seq<char>, u16>,
    int,
)
    decreases ls.len(),
{
    if ls.len() == 0 {
        (Seq::empty(), m0, FIRST_VARIABLE as int)
    } else {
        let (out, m, next) = second_pass(ls.drop_last(), m0);
        let l = ls.last();
        if spec_is_instruction(l) {
            let (w, m2, next2) = encode(l, m, next);
            (out + w, m2, next2)
        } else {
            (out, m, next)
        }
    }
}

/// Whether every label address and every variable address of a program
/// fits in 16 bits.
pub open spec fn fits(t: Seq<char>) -> bool {
    let ls = clean_lines(t);
    &&& first_pass(ls).1 <= 65535
    &&& second_pass(ls, first_pass(ls).0).2 <= 65536
}

/// The binary text that a program assembles to.
pub open spec fn assembled(t: Seq<char>) -> Seq<char> {
    let ls = clean_lines(t);
    second_pass(ls, first_pass(ls).0).0
}

/// The instruction count never goes down as the first pass goes on.
pub proof fn lemma_count_grows(ls: Seq<Seq<char>>, i: int)
    requires
        0 <= i <= ls.len(),
    ensures
        first_pass(ls.subrange(0, i)).1 <= first_pass(ls).1,
    decreases ls.len(),
{
    if i < ls.len() {
        lemma_count_grows(ls.drop_last(), i);
        assert(ls.drop_last().subrange(0, i) =~= ls.subrange(0, i));
    } else {
        assert(ls.subrange(0, i) =~= ls);
    }
}

/// The next free variable address never goes down as the second pass goes on.
pub proof fn lemma_next_grows(ls: Seq<Seq<char>>, m0: Map<Seq<char>, u16>, i: int)
    requires
        0 <= i <= ls.len(),
    ensures
        second_pass(ls.subrange(0, i), m0).2 <= second_pass(ls, m0).2,
    decreases ls.len(),
{
    if i < ls.len() {
        lemma_next_grows(ls.drop_last(), m0, i);
        assert(ls.drop_last().subrange(0, i) =~= ls.subrange(0, i));
    } else {
        assert(ls.subrange(0, i) =~= ls);
    }
}

/// Binds the label that `line` declares to `current_line`.
pub fn parse_label(line: &[char], symbols: &mut SymbolTable, current_line: u16)
    requires
        old(symbols).wf(),
    ensures
        final(symbols).wf(),
        final(symbols)@ == old(symbols)@.insert(label_name(line@), current_line),
{
    let name = parse_label_name(line);
    symbols.insert(name, current_line);
}

/// The address of a variable, which gets the next free address when it is
/// not bound yet; `None` when it needs one and none is left.
pub fn parse_variable(variable: &[char], symbols: &mut SymbolTable, current_address: &mut u32) -> (r:
    Option<u16>)
    requires
        old(symbols).wf(),
    ensures
        final(symbols).wf(),
        old(symbols)@.contains_key(variable@) ==> r == Some(old(symbols)@[variable@])
            && final(symbols)@ == old(symbols)@ && *final(current_address) == *old(
            current_address,
        ),
        !old(symbols)@.contains_key(variable@) ==> (r is Some <==> *old(current_address)
            <= 65535),
        !old(symbols)@.contains_key(variable@) && *old(current_address) <= 65535 ==> r == Some(
            *old(current_address) as u16,
        ) && final(symbols)@ == old(symbols)@.insert(variable@, *old(current_address) as u16)
            && *final(current_address) == *old(current_address) + 1,
{
    match symbols.get(variable) {
        Some(a) => Some(a),
        None => {
            if *current_address > 65535 {
                return None;
            }
            let a = *current_address as u16;
            symbols.insert(copy_range(variable, 0, variable.len()), a);
            assert(variable@.subrange(0, variable@.len() as int) =~= variable@);
            *current_address = *current_address + 1;
            Some(a)
        },
    }
}

/// Appends the word of an address instruction; `false` when its operand is
/// a new variable and no address is left for it.
pub fn parse_a_instruction(
    out: &mut String,
    line: &[char],
    symbols: &mut SymbolTable,
    current_address: &mut u32,
) -> (ok: bool)
    requires
        old(symbols).wf(),
        *old(current_address) <= 65536,
        spec_is_a_instruction(line@),
    ensures
        final(symbols).wf(),
        ({
            let (w, m, next) = encode(line@, old(symbols)@, *old(current_address) as int);
            &&& ok == (next <= 65536)
            &&& ok ==> final(out)@ == old(out)@ + w && final(symbols)@ == m
                && *final(current_address) == next
        }),
{
    let value = copy_range(line, 1, line.len());
    assert(value@ =~= line@.drop_first());
    let v = match parse_number(&value) {
        Some(v) => v,
        None => match parse_variable(&value, symbols, current_address) {
            Some(v) => v,
            None => {
                return false;
            },
        },
    };
    push_a_word(out, v);
    true
}

/// Appends the word of an instruction; `false` when it is an address
/// instruction whose operand is a new variable and no address is left.
pub fn parse_instruction(
    out: &mut String,
    line: &[char],
    symbols: &mut SymbolTable,
    current_address: &mut u32,
) -> (ok: bool)
    requires
        old(symbols).wf(),
        *old(current_address) <= 65536,
    ensures
        final(symbols).wf(),
        ({
            let (w, m, next) = encode(line@, old(symbols)@, *old(current_address) as int);
            &&& ok == (next <= 65536)
            &&& ok ==> final(out)@ == old(out)@ + w && final(symbols)@ == m
                && *final(current_address) == next
        }),
{
    if is_a_instruction(line) {
        parse_a_instruction(out, line, symbols, current_address)
    } else {
        parse_c_instruction(out, line);
        true
    }
}

/// The clean lines of a source text.
pub fn parse_lines(program: &str) -> (r: Vec<Vec<char>>)
    ensures
        views(r@) == clean_lines(program@),
{
    let text = text_chars(program);
    let raw = split_lines(&text);
    let ghost ls = clean_lines(program@);
    let mut lines: Vec<Vec<char>> = Vec::new();
    let mut i: usize = 0;
    while i < raw.len()
        invariant
            i <= raw@.len(),
            ls == views(raw@).map_values(|l: Seq<char>| clean(l)),
            views(lines@) == ls.subrange(0, i as int),
        decreases raw@.len() - i,
    {
        let l = clean_line(&raw[i]);
        assert(views(raw@)[i as int] == raw@[i as int]@);
        assert(ls[i as int] == l@);
        let ghost before = lines@;
        lines.push(l);
        assert(lines@ == before.push(l));
        proof {
            lemma_views_push(before, l);
        }
        assert(views(lines@) =~= ls.subrange(0, i + 1));
        i = i + 1;
    }
    assert(ls.subrange(0, i as int) =~= ls);
    lines
}

/// The symbols after the first pass over a program's clean lines; `None`
/// when it has more instructions than 16-bit addresses can count.
pub fn resolve_labels(lines: &Vec<Vec<char>>) -> (r: Option<SymbolTable>)
    ensures
        match r {
            Some(t) => t.wf() && first_pass(views(lines@)).1 <= 65535 && t@ == first_pass(
                views(lines@),
            ).0,
            None => first_pass(views(lines@)).1 > 65535,
        },
{
    let ghost ls = views(lines@);
    let mut symbols = SymbolTable::predefined();
    let mut current_line: u16 = 0;
    let mut i: usize = 0;
    while i < lines.len()
        invariant
            i <= lines@.len(),
            ls == views(lines@),
            symbols.wf(),
            (symbols@, current_line as int) == first_pass(ls.subrange(0, i as int)),
        decreases lines@.len() - i,
    {
        assert(ls.subrange(0, i + 1).drop_last() =~= ls.subrange(0, i as int));
        assert(ls.subrange(0, i + 1).last() == lines@[i as int]@);
        let line = &lines[i];
        if is_label(line) {
            parse_label(line, &mut symbols, current_line);
        } else if is_instruction(line) {
            if current_line == 65535 {
                proof {
                    lemma_count_grows(ls, i + 1);
                }
                return None;
            }
            current_line = current_line + 1;
        }
        i = i + 1;
    }
    assert(ls.subrange(0, i as int) =~= ls);
    Some(symbols)
}

/// Assembles a program: one line of binary digits for each instruction, in
/// order. `None` when a label or variable address would not fit in 16 bits.
pub fn parse_program(program: &str) -> (r: Option<String>)
    ensures
        match r {
            Some(s) => fits(program@) && s@ == assembled(program@),
            None => !fits(program@),
        },
{
    let lines = parse_lines(program);
    let ghost ls = views(lines@);
    let mut symbols = match resolve_labels(&lines) {
        Some(t) => t,
        None => {
            return None;
        },
    };
    let ghost m1 = symbols@;
    let mut result = String::new();
    let mut current_address: u32 = FIRST_VARIABLE;
    let mut i: usize = 0;
    assert(ls.subrange(0, 0) =~= Seq::<Seq<char>>::empty());
    while i < lines.len()
        invariant
            i <= lines@.len(),
            ls == views(lines@),
            ls == clean_lines(program@),
            m1 == first_pass(ls).0,
            first_pass(ls).1 <= 65535,
            symbols.wf(),
            current_address <= 65536,
            (result@, symbols@, current_address as int) == second_pass(
                ls.subrange(0, i as int),
                m1,
            ),
        decreases lines@.len() - i,
    {
        assert(ls.subrange(0, i + 1).drop_last() =~= ls.subrange(0, i as int));
        assert(ls.subrange(0, i + 1).last() == lines@[i as int]@);
        let line = &lines[i];
        if is_instruction(line) {
            let ok = parse_instruction(&mut result, line, &mut symbols, &mut current_address);
            if !ok {
                proof {
                    lemma_next_grows(ls, m1, i + 1);
                }
                return None;
            }
        }
        i = i + 1;
    }
    assert(ls.subrange(0, i as int) =~= ls);
    Some(result)
}

} // verus!
