//! Binary words: what an address or a compute instruction encodes to.

use crate::chars::copy_range;
use crate::mnemonic::{comp_bits, comp_codes, dest_bits, dest_codes, jump_bits, jump_codes};
use vstd::prelude::*;

verus! {

/// A decimal digit.
pub open spec fn is_digit(c: char) -> bool {
    '0' <= c <= '9'
}

/// The value that a string of decimal digits spells.
pub open spec fn digits_value(s: Seq<char>) -> int
    decreases s.len(),
{
    if s.len() == 0 {
        0
    } else {
        digits_value(s.drop_last()) * 10 + (s.last() as int - '0' as int)
    }
}

/// The digits of an operand: the operand without one leading `'+'`.
pub open spec fn unsigned_digits(s: Seq<char>) -> Seq<char> {
    if s.len() > 0 && s[0] == '+' {
        s.drop_first()
    } else {
        s
    }
}

/// What an operand reads as when taken as a 16-bit unsigned number: an
/// optional `'+'`, then one or more decimal digits, worth at most 65535.
pub open spec fn spec_parse_number(s: Seq<char>) -> Option<u16> {
    let d = unsigned_digits(s);
    if d.len() > 0 && (forall|i: int| 0 <= i < d.len() ==> is_digit(#[trigger] d[i]))
        && digits_value(d) <= 65535 {
        Some(digits_value(d) as u16)
    } else {
        None
    }
}

/// The low `n` binary digits of `v`, the highest first.
pub open spec fn binary(v: nat, n: nat) -> Seq<char>
    decreases n,
{
    if n == 0 {
        Seq::empty()
    } else {
        binary(v / 2, (n - 1) as nat).push(if v % 2 == 1 { '1' } else { '0' })
    }
}

/// The binary digits of an address: at least fifteen, zero-padded.
pub open spec fn address_bits(v: u16) -> Seq<char> {
    if v < 32768 {
        binary(v as nat, 15)
    } else {
        binary(v as nat, 16)
    }
}

/// The line that an address instruction encodes to.
pub open spec fn a_word(v: u16) -> Seq<char> {
    seq!['0'] + address_bits(v) + seq!['\n']
}

/// Where the first `c` at or after `i` stands, or the length when none does.
pub open spec fn index_from(s: Seq<char>, c: char, i: int) -> int
    decreases s.len() - i,
{
    if i < 0 || i >= s.len() {
        s.len() as int
    } else if s[i] == c {
        i
    } else {
        index_from(s, c, i + 1)
    }
}

/// The destination, computation and jump mnemonics of a compute instruction:
/// the destination ends at the first `'='`, the jump follows the first `';'`
/// after it, and a missing part is empty.
pub open spec fn c_parts(l: Seq<char>) -> (Seq<char>, Seq<char>, Seq<char>) {
    let e = index_from(l, '=', 0);
    let dest = if e < l.len() { l.subrange(0, e) } else { Seq::empty() };
    let rest = if e < l.len() { l.subrange(e + 1, l.len() as int) } else { l };
    let j = index_from(rest, ';', 0);
    let comp = if j < rest.len() { rest.subrange(0, j) } else { rest };
    let jump = if j < rest.len() { rest.subrange(j + 1, rest.len() as int) } else { Seq::empty() };
    (dest, comp, jump)
}

/// The line that a compute instruction encodes to.
pub open spec fn c_word(l: Seq<char>) -> Seq<char> {
    let (dest, comp, jump) = c_parts(l);
    seq!['1', '1', '1'] + comp_bits(comp) + dest_bits(dest) + jump_bits(jump) + seq!['\n']
}

/// Reads an operand as a 16-bit unsigned decimal number.
pub fn parse_number(s: &[char]) -> (r: Option<u16>)
    ensures
        r == spec_parse_number(s@),
{
    let start: usize = if s.len() > 0 && s[0] == '+' {
        1
    } else {
        0
    };
    let ghost d = unsigned_digits(s@);
    assert(d =~= s@.subrange(start as int, s@.len() as int));
    if start == s.len() {
        return None;
    }
    let mut acc: u32 = 0;
    let mut i: usize = start;
    while i < s.len()
        invariant
            start <= i <= s@.len(),
            d == s@.subrange(start as int, s@.len() as int),
            d == unsigned_digits(s@),
            forall|k: int| start <= k < i ==> is_digit(#[trigger] s@[k]),
            acc == if digits_value(s@.subrange(start as int, i as int)) <= 65536 {
                digits_value(s@.subrange(start as int, i as int))
            } else {
                65536
            },
            0 <= digits_value(s@.subrange(start as int, i as int)),
        decreases s@.len() - i,
    {
        let c = s[i];
        if !('0' <= c && c <= '9') {
            assert(!is_digit(d[i - start]));
            return None;
        }
        assert(s@.subrange(start as int, i + 1).drop_last() =~= s@.subrange(start as int, i as int));
        let next = acc * 10 + (c as u32 - '0' as u32);
        acc = if next > 65536 {
            65536
        } else {
            next
        };
        i = i + 1;
    }
    assert(s@.subrange(start as int, i as int) =~= d);
    assert forall|k: int| 0 <= k < d.len() implies is_digit(#[trigger] d[k]) by {
        assert(d[k] == s@[k + start]);
    }
    if acc <= 65535 {
        Some(acc as u16)
    } else {
        None
    }
}

/// Appends `"0"` or `"1"`.
fn push_bit(out: &mut String, one: bool)
    ensures
        final(out)@ == old(out)@.push(if one { '1' } else { '0' }),
{
    proof {
        reveal_strlit("0");
        reveal_strlit("1");
    }
    if one {
        out.append("1");
    } else {
        out.append("0");
    }
}

/// Appends the line that an address instruction with value `v` encodes to.
pub fn push_a_word(out: &mut String, v: u16)
    ensures
        final(out)@ == old(out)@ + a_word(v),
{
    let width: usize = if v < 32768 {
        15
    } else {
        16
    };
    let mut digits: Vec<bool> = Vec::new();
    let mut w: u16 = v;
    let mut k: usize = 0;
    while k < width
        invariant
            width == if v < 32768 { 15usize } else { 16usize },
            k <= width,
            address_bits(v) == binary(w as nat, (width - k) as nat) + digits@.map_values(
                |b: bool| if b { '1' } else { '0' },
            ),
        decreases width - k,
    {
        let ghost old_digits = digits@;
        digits.insert(0, w % 2 == 1);
        assert(digits@.map_values(|b: bool| if b { '1' } else { '0' }) =~= seq![
            if w % 2 == 1 { '1' } else { '0' },
        ] + old_digits.map_values(|b: bool| if b { '1' } else { '0' }));
        assert(binary(w as nat, (width - k) as nat) == binary((w / 2) as nat, (width - k - 1) as nat).push(
            if w % 2 == 1 { '1' } else { '0' },
        ));
        assert(binary(w as nat, (width - k) as nat) + old_digits.map_values(
            |b: bool| if b { '1' } else { '0' },
        ) =~= binary((w / 2) as nat, (width - k - 1) as nat) + digits@.map_values(
            |b: bool| if b { '1' } else { '0' },
        ));
        w = w / 2;
        k = k + 1;
    }
    assert(binary(w as nat, 0) =~= Seq::<char>::empty());
    assert(address_bits(v) =~= digits@.map_values(|b: bool| if b { '1' } else { '0' }));
    let ghost start = old(out)@;
    push_bit(out, false);
    let mut i: usize = 0;
    while i < digits.len()
        invariant
            i <= digits@.len(),
            out@ == start + seq!['0'] + address_bits(v).subrange(0, i as int),
            address_bits(v) == digits@.map_values(|b: bool| if b { '1' } else { '0' }),
        decreases digits@.len() - i,
    {
        push_bit(out, digits[i]);
        assert(address_bits(v).subrange(0, i + 1) =~= address_bits(v).subrange(0, i as int).push(
            if digits@[i as int] { '1' } else { '0' },
        ));
        i = i + 1;
    }
    assert(address_bits(v).subrange(0, i as int) =~= address_bits(v));
    proof {
        reveal_strlit("\n");
    }
    out.append("\n");
    assert(out@ =~= start + a_word(v));
}

/// Where the first `c` in `s` stands, or the length when none does.
fn find_char(s: &[char], c: char) -> (r: usize)
    ensures
        r == index_from(s@, c, 0),
{
    let mut i: usize = 0;
    while i < s.len() && s[i] != c
        invariant
            i <= s@.len(),
            index_from(s@, c, 0) == index_from(s@, c, i as int),
        decreases s@.len() - i,
    {
        i = i + 1;
    }
    i
}

/// Appends the line that a compute instruction encodes to.
pub fn parse_c_instruction(out: &mut String, line: &[char])
    ensures
        final(out)@ == old(out)@ + c_word(line@),
{
    let e = find_char(line, '=');
    let (dest, rest) = if e < line.len() {
        (copy_range(line, 0, e), copy_range(line, e + 1, line.len()))
    } else {
        (Vec::new(), copy_range(line, 0, line.len()))
    };
    assert(line@.subrange(0, line@.len() as int) =~= line@);
    let j = find_char(&rest, ';');
    let (comp, jump) = if j < rest.len() {
        (copy_range(&rest, 0, j), copy_range(&rest, j + 1, rest.len()))
    } else {
        (copy_range(&rest, 0, rest.len()), Vec::new())
    };
    assert(rest@.subrange(0, rest@.len() as int) =~= rest@);
    let ghost parts = c_parts(line@);
    assert(dest@ =~= parts.0);
    assert(comp@ =~= parts.1);
    assert(jump@ =~= parts.2);
    proof {
        reveal_strlit("111");
        reveal_strlit("\n");
    }
    let ghost start = old(out)@;
    out.append("111");
    out.append(comp_codes(&comp));
    out.append(dest_codes(&dest));
    out.append(jump_codes(&jump));
    out.append("\n");
    assert(out@ =~= start + c_word(line@));
}

} // verus!
