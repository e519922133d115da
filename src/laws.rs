//! What holds of every program.

use crate::assembler::{assembled, encode, first_pass, second_pass};
use crate::source::{
    clean, comment_at, label_name, spec_is_instruction, spec_is_label, without_spaces,
};
use crate::symbols::predefined;
use crate::word::{a_word, spec_parse_number};
use vstd::prelude::*;

verus! {

/// Every predefined name starts with an upper-case letter.
proof fn lemma_predefined_names(name: Seq<char>)
    requires
        predefined().contains_key(name),
    ensures
        name.len() > 0,
        'A' <= name[0] <= 'Z',
{
}

/// A name that starts with a letter is never read as a number.
proof fn lemma_letter_not_number(name: Seq<char>)
    requires
        name.len() > 0,
        'A' <= name[0] <= 'Z',
    ensures
        spec_parse_number(name) is None,
{
    assert(!crate::word::is_digit(name[0]));
}

/// Without label lines, the first pass leaves the predefined symbols as they are.
proof fn lemma_no_labels(ls: Seq<Seq<char>>)
    requires
        forall|i: int| 0 <= i < ls.len() ==> !spec_is_label(#[trigger] ls[i]),
    ensures
        first_pass(ls).0 == predefined(),
    decreases ls.len(),
{
    if ls.len() > 0 {
        lemma_no_labels(ls.drop_last());
    }
}

/// The second pass never changes the address of a name that it started with.
proof fn lemma_second_pass_keeps(ls: Seq<Seq<char>>, m0: Map<Seq<char>, u16>, k: Seq<char>)
    requires
        m0.contains_key(k),
    ensures
        second_pass(ls, m0).1.contains_key(k),
        second_pass(ls, m0).1[k] == m0[k],
    decreases ls.len(),
{
    if ls.len() > 0 {
        lemma_second_pass_keeps(ls.drop_last(), m0, k);
    }
}

/// The first pass keeps the address of a name that no later label declares.
proof fn lemma_first_pass_keeps(ls: Seq<Seq<char>>, j: int)
    requires
        0 <= j < ls.len(),
        spec_is_label(ls[j]),
        forall|k: int|
            j < k < ls.len() && spec_is_label(#[trigger] ls[k]) ==> label_name(ls[k]) != label_name(
                ls[j],
            ),
    ensures
        first_pass(ls).0.contains_key(label_name(ls[j])),
        first_pass(ls).0[label_name(ls[j])] == first_pass(ls.subrange(0, j)).1 as u16,
    decreases ls.len(),
{
    if j < ls.len() - 1 {
        let p = ls.drop_last();
        assert forall|k: int|
            j < k < p.len() && spec_is_label(#[trigger] p[k]) implies label_name(p[k]) != label_name(
            p[j],
        ) by {
            assert(p[k] == ls[k]);
        }
        lemma_first_pass_keeps(p, j);
        assert(p.subrange(0, j) =~= ls.subrange(0, j));
    } else {
        assert(ls.drop_last() =~= ls.subrange(0, j));
    }
}

/// Predefined symbols: in a program without labels, an address instruction
/// that names a predefined symbol loads that symbol's fixed address, wherever
/// it stands.
pub proof fn predefined_symbols_resolve(ls: Seq<Seq<char>>, i: int, name: Seq<char>)
    requires
        forall|k: int| 0 <= k < ls.len() ==> !spec_is_label(#[trigger] ls[k]),
        0 <= i < ls.len(),
        ls[i] == seq!['@'] + name,
        predefined().contains_key(name),
    ensures
        first_pass(ls).0 == predefined(),
        ({
            let (out, m, next) = second_pass(ls.subrange(0, i), first_pass(ls).0);
            second_pass(ls.subrange(0, i + 1), first_pass(ls).0) == (
                out + a_word(predefined()[name]),
                m,
                next,
            )
        }),
{
    lemma_no_labels(ls);
    lemma_predefined_names(name);
    lemma_letter_not_number(name);
    lemma_second_pass_keeps(ls.subrange(0, i), predefined(), name);
    assert(ls.subrange(0, i + 1).drop_last() =~= ls.subrange(0, i));
    assert(ls[i].drop_first() =~= name);
}

/// Labels: an address instruction that names a label, before or after the
/// label's line, loads the number of instructions that stand before that
/// line, so long as no later line declares the same name again.
pub proof fn labels_resolve(ls: Seq<Seq<char>>, j: int, i: int)
    requires
        0 <= j < ls.len(),
        spec_is_label(ls[j]),
        forall|k: int|
            j < k < ls.len() && spec_is_label(#[trigger] ls[k]) ==> label_name(ls[k]) != label_name(
                ls[j],
            ),
        0 <= i < ls.len(),
        ls[i] == seq!['@'] + label_name(ls[j]),
        spec_parse_number(label_name(ls[j])) is None,
    ensures
        ({
            let (out, m, next) = second_pass(ls.subrange(0, i), first_pass(ls).0);
            second_pass(ls.subrange(0, i + 1), first_pass(ls).0) == (
                out + a_word(first_pass(ls.subrange(0, j)).1 as u16),
                m,
                next,
            )
        }),
{
    let name = label_name(ls[j]);
    lemma_first_pass_keeps(ls, j);
    lemma_second_pass_keeps(ls.subrange(0, i), first_pass(ls).0, name);
    assert(ls.subrange(0, i + 1).drop_last() =~= ls.subrange(0, i));
    assert(ls[i].drop_first() =~= name);
}

/// Variables: two new names get the next two free addresses in the order of
/// their first use, and naming the first one again loads its address again
/// and allocates nothing.
pub proof fn variables_in_first_use_order(
    m: Map<Seq<char>, u16>,
    next: int,
    x: Seq<char>,
    y: Seq<char>,
)
    requires
        x != y,
        !m.contains_key(x),
        !m.contains_key(y),
        spec_parse_number(x) is None,
        spec_parse_number(y) is None,
        0 <= next,
        next + 1 <= 65535,
    ensures
        ({
            let (w1, m1, n1) = encode(seq!['@'] + x, m, next);
            let (w2, m2, n2) = encode(seq!['@'] + y, m1, n1);
            let (w3, m3, n3) = encode(seq!['@'] + x, m2, n2);
            &&& w1 == a_word(next as u16)
            &&& w2 == a_word((next + 1) as u16)
            &&& w3 == a_word(next as u16)
            &&& m3 == m2
            &&& n3 == next + 2
        }),
{
    assert((seq!['@'] + x).drop_first() =~= x);
    assert((seq!['@'] + y).drop_first() =~= y);
}

/// Blank lines: a line that is empty once its spaces are gone, or whose
/// first non-space characters are `"//"`, adds no output, no symbol and no
/// instruction address.
pub proof fn blank_lines_are_skipped(ls: Seq<Seq<char>>, m0: Map<Seq<char>, u16>, raw: Seq<char>)
    requires
        without_spaces(raw).len() == 0 || comment_at(without_spaces(raw), 0),
    ensures
        first_pass(ls.push(clean(raw))) == first_pass(ls),
        second_pass(ls.push(clean(raw)), m0) == second_pass(ls, m0),
{
    assert(ls.push(clean(raw)).drop_last() =~= ls);
    assert(clean(raw).len() == 0);
}

/// Label lines: a label line adds no output and takes no instruction
/// address.
pub proof fn labels_take_no_address(ls: Seq<Seq<char>>, m0: Map<Seq<char>, u16>, l: Seq<char>)
    requires
        spec_is_label(l),
    ensures
        first_pass(ls.push(l)).1 == first_pass(ls).1,
        second_pass(ls.push(l), m0) == second_pass(ls, m0),
{
    assert(ls.push(l).drop_last() =~= ls);
}

/// Determinism: the output depends on the source text alone, so assembling
/// the same text twice, each time with a fresh table, gives the same output.
pub proof fn assembling_twice_agrees(t1: Seq<char>, t2: Seq<char>)
    requires
        t1 == t2,
    ensures
        assembled(t1) == assembled(t2),
{
}

} // verus!
