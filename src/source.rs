//! Turning source text into clean lines, and telling the kinds of line apart.

use crate::chars::copy_range;
use vstd::prelude::*;

verus! {

/// The text's lines before cleaning, and the unfinished last one, after
/// reading the text from the start: a line ends at `'\n'`, and a `'\r'` just
/// before that `'\n'` is not part of it.
pub open spec fn scan_lines(t: Seq<char>) -> (Seq<Seq<char>>, Seq<char>)
    decreases t.len(),
{
    if t.len() == 0 {
        (Seq::empty(), Seq::empty())
    } else {
        let (done, cur) = scan_lines(t.drop_last());
        if t.last() == '\n' {
            (done.push(without_cr(cur)), Seq::empty())
        } else {
            (done, cur.push(t.last()))
        }
    }
}

/// A line with one trailing `'\r'` removed.
pub open spec fn without_cr(l: Seq<char>) -> Seq<char> {
    if l.len() > 0 && l.last() == '\r' {
        l.drop_last()
    } else {
        l
    }
}

/// The lines of a text. The last line needs no `'\n'`; an empty text, or
/// the empty rest after a final `'\n'`, adds no line.
pub open spec fn lines_of(t: Seq<char>) -> Seq<Seq<char>> {
    let (done, cur) = scan_lines(t);
    if cur.len() == 0 {
        done
    } else {
        done.push(cur)
    }
}

/// A line without its space characters.
pub open spec fn without_spaces(l: Seq<char>) -> Seq<char>
    decreases l.len(),
{
    if l.len() == 0 {
        Seq::empty()
    } else if l.last() == ' ' {
        without_spaces(l.drop_last())
    } else {
        without_spaces(l.drop_last()).push(l.last())
    }
}

/// Whether a `"//"` starts at position `i`.
pub open spec fn comment_at(l: Seq<char>, i: int) -> bool {
    0 <= i && i + 1 < l.len() && l[i] == '/' && l[i + 1] == '/'
}

/// Where the first `"//"` at or after `i` starts, or the length when none does.
pub open spec fn comment_from(l: Seq<char>, i: int) -> int
    decreases l.len() - i,
{
    if i < 0 || i + 1 >= l.len() {
        l.len() as int
    } else if comment_at(l, i) {
        i
    } else {
        comment_from(l, i + 1)
    }
}

/// A line cut before its first `"//"`.
pub open spec fn without_comment(l: Seq<char>) -> Seq<char> {
    l.subrange(0, comment_from(l, 0))
}

/// A source line as both passes see it: no spaces, no comment.
pub open spec fn clean(l: Seq<char>) -> Seq<char> {
    without_comment(without_spaces(l))
}

/// A clean line that declares a label.
pub open spec fn spec_is_label(l: Seq<char>) -> bool {
    l.len() > 0 && l[0] == '('
}

/// A clean line that holds an instruction.
pub open spec fn spec_is_instruction(l: Seq<char>) -> bool {
    l.len() > 0 && l[0] != '(' && !comment_at(l, 0)
}

/// An instruction that loads an address.
pub open spec fn spec_is_a_instruction(l: Seq<char>) -> bool {
    l.len() > 0 && l[0] == '@'
}

/// `l` without the characters `c` at its start.
pub open spec fn trim_front(l: Seq<char>, c: char) -> Seq<char>
    decreases l.len(),
{
    if l.len() > 0 && l[0] == c {
        trim_front(l.drop_first(), c)
    } else {
        l
    }
}

/// `l` without the characters `c` at its end.
pub open spec fn trim_back(l: Seq<char>, c: char) -> Seq<char>
    decreases l.len(),
{
    if l.len() > 0 && l.last() == c {
        trim_back(l.drop_last(), c)
    } else {
        l
    }
}

/// `l` without the characters `c` at either end.
pub open spec fn trim(l: Seq<char>, c: char) -> Seq<char> {
    trim_back(trim_front(l, c), c)
}

/// The name that a label line declares: the line without its parentheses.
pub open spec fn label_name(l: Seq<char>) -> Seq<char> {
    trim(trim(l, '('), ')')
}

/// The characters of a text.
pub fn text_chars(text: &str) -> (r: Vec<char>)
    ensures
        r@ == text@,
{
    let mut r: Vec<char> = Vec::new();
    let mut it = text.chars();
    for c in iter: it
        invariant
            iter.seq() == text@,
            r@ == iter.seq().subrange(0, iter.index() as int),
    {
        r.push(c);
        assert(r@ =~= iter.seq().subrange(0, iter.index() + 1));
    }
    r
}

/// The views of a list of lines.
pub open spec fn views(ls: Seq<Vec<char>>) -> Seq<Seq<char>> {
    ls.map_values(|l: Vec<char>| l@)
}

/// Pushing a line pushes its view.
pub proof fn lemma_views_push(ls: Seq<Vec<char>>, l: Vec<char>)
    ensures
        views(ls.push(l)) == views(ls).push(l@),
{
    assert(views(ls.push(l)) =~= views(ls).push(l@));
}

/// Splits a text into its lines, as `lines_of` says.
pub fn split_lines(text: &[char]) -> (r: Vec<Vec<char>>)
    ensures
        views(r@) == lines_of(text@),
{
    let mut done: Vec<Vec<char>> = Vec::new();
    let mut cur: Vec<char> = Vec::new();
    let mut i: usize = 0;
    while i < text.len()
        invariant
            i <= text@.len(),
            (views(done@), cur@) == scan_lines(text@.subrange(0, i as int)),
        decreases text@.len() - i,
    {
        let ghost before = text@.subrange(0, i as int);
        assert(text@.subrange(0, i + 1).drop_last() =~= before);
        let c = text[i];
        if c == '\n' {
            if cur.len() > 0 && cur[cur.len() - 1] == '\r' {
                cur.pop();
            }
            done.push(cur);
            assert(views(done@) =~= scan_lines(text@.subrange(0, i + 1)).0);
            cur = Vec::new();
        } else {
            cur.push(c);
        }
        i = i + 1;
    }
    assert(text@.subrange(0, text@.len() as int) =~= text@);
    if cur.len() > 0 {
        done.push(cur);
        assert(views(done@) =~= lines_of(text@));
    }
    done
}

/// Removes every space character from a line.
pub fn remove_whitespace(line: &[char]) -> (r: Vec<char>)
    ensures
        r@ == without_spaces(line@),
{
    let mut r: Vec<char> = Vec::new();
    let mut i: usize = 0;
    while i < line.len()
        invariant
            i <= line@.len(),
            r@ == without_spaces(line@.subrange(0, i as int)),
        decreases line@.len() - i,
    {
        assert(line@.subrange(0, i + 1).drop_last() =~= line@.subrange(0, i as int));
        if line[i] != ' ' {
            r.push(line[i]);
        }
        i = i + 1;
    }
    assert(line@.subrange(0, line@.len() as int) =~= line@);
    r
}

/// Cuts a line before its first `"//"`.
pub fn remove_comment(line: &[char]) -> (r: Vec<char>)
    ensures
        r@ == without_comment(line@),
{
    let n = line.len();
    let mut i: usize = 0;
    while n - i > 1 && !(line[i] == '/' && line[i + 1] == '/')
        invariant
            n == line@.len(),
            i <= n,
            comment_from(line@, 0) == comment_from(line@, i as int),
        decreases n - i,
    {
        i = i + 1;
    }
    let end = if n - i > 1 {
        i
    } else {
        n
    };
    copy_range(line, 0, end)
}

/// A source line as both passes see it.
pub fn clean_line(line: &[char]) -> (r: Vec<char>)
    ensures
        r@ == clean(line@),
{
    let l = remove_whitespace(line);
    remove_comment(&l)
}

/// Whether a clean line declares a label.
pub fn is_label(line: &[char]) -> (r: bool)
    ensures
        r == spec_is_label(line@),
{
    line.len() > 0 && line[0] == '('
}

/// Whether a clean line holds an instruction.
pub fn is_instruction(line: &[char]) -> (r: bool)
    ensures
        r == spec_is_instruction(line@),
{
    line.len() > 0 && line[0] != '(' && !(line.len() > 1 && line[0] == '/' && line[1] == '/')
}

/// Whether an instruction loads an address.
pub fn is_a_instruction(line: &[char]) -> (r: bool)
    ensures
        r == spec_is_a_instruction(line@),
{
    line.len() > 0 && line[0] == '@'
}

/// The bounds of `s[from..to]` once the characters `c` at either end are gone.
fn trim_bounds(s: &[char], from: usize, to: usize, c: char) -> (r: (usize, usize))
    requires
        from <= to <= s@.len(),
    ensures
        from <= r.0 <= r.1 <= to,
        s@.subrange(r.0 as int, r.1 as int) == trim(s@.subrange(from as int, to as int), c),
{
    let mut a: usize = from;
    while a < to && s[a] == c
        invariant
            from <= a <= to <= s@.len(),
            trim_front(s@.subrange(from as int, to as int), c) == trim_front(
                s@.subrange(a as int, to as int),
                c,
            ),
        decreases to - a,
    {
        assert(s@.subrange(a + 1, to as int) =~= s@.subrange(a as int, to as int).drop_first());
        a = a + 1;
    }
    let mut b: usize = to;
    while b > a && s[b - 1] == c
        invariant
            from <= a <= b <= to <= s@.len(),
            trim(s@.subrange(from as int, to as int), c) == trim_back(
                s@.subrange(a as int, b as int),
                c,
            ),
        decreases b - a,
    {
        assert(s@.subrange(a as int, b - 1) =~= s@.subrange(a as int, b as int).drop_last());
        b = b - 1;
    }
    (a, b)
}

/// The name that a label line declares.
pub fn parse_label_name(line: &[char]) -> (r: Vec<char>)
    ensures
        r@ == label_name(line@),
{
    assert(line@.subrange(0, line@.len() as int) =~= line@);
    let (a, b) = trim_bounds(line, 0, line.len(), '(');
    let (c, d) = trim_bounds(line, a, b, ')');
    copy_range(line, c, d)
}

} // verus!
