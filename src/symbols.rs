//! The symbol table: names bound to 16-bit addresses.

use crate::chars::same_chars;
use crate::source::views;
use vstd::prelude::*;

verus! {

/// The map that a list of bindings makes, a later binding of a name
/// replacing an earlier one.
pub open spec fn bindings_map(names: Seq<Seq<char>>, addrs: Seq<u16>) -> Map<Seq<char>, u16>
    decreases names.len(),
{
    if names.len() == 0 || addrs.len() == 0 {
        Map::empty()
    } else {
        bindings_map(names.drop_last(), addrs.drop_last()).insert(names.last(), addrs.last())
    }
}

/// The symbols that every program starts with.
pub open spec fn predefined() -> Map<Seq<char>, u16> {
    Map::empty()
        .insert(seq!['R', '0'], 0u16)
        .insert(seq!['R', '1'], 1u16)
        .insert(seq!['R', '2'], 2u16)
        .insert(seq!['R', '3'], 3u16)
        .insert(seq!['R', '4'], 4u16)
        .insert(seq!['R', '5'], 5u16)
        .insert(seq!['R', '6'], 6u16)
        .insert(seq!['R', '7'], 7u16)
        .insert(seq!['R', '8'], 8u16)
        .insert(seq!['R', '9'], 9u16)
        .insert(seq!['R', '1', '0'], 10u16)
        .insert(seq!['R', '1', '1'], 11u16)
        .insert(seq!['R', '1', '2'], 12u16)
        .insert(seq!['R', '1', '3'], 13u16)
        .insert(seq!['R', '1', '4'], 14u16)
        .insert(seq!['R', '1', '5'], 15u16)
        .insert(seq!['S', 'P'], 0u16)
        .insert(seq!['L', 'C', 'L'], 1u16)
        .insert(seq!['A', 'R', 'G'], 2u16)
        .insert(seq!['T', 'H', 'I', 'S'], 3u16)
        .insert(seq!['T', 'H', 'A', 'T'], 4u16)
        .insert(seq!['S', 'C', 'R', 'E', 'E', 'N'], 16384u16)
        .insert(seq!['K', 'B', 'D'], 24576u16)
}

/// Names bound to addresses. Binding a name that is bound already replaces
/// its address.
pub struct SymbolTable {
    names: Vec<Vec<char>>,
    addrs: Vec<u16>,
}

impl View for SymbolTable {
    type V = Map<Seq<char>, u16>;

    closed spec fn view(&self) -> Map<Seq<char>, u16> {
        bindings_map(views(self.names@), self.addrs@)
    }
}

impl SymbolTable {
    /// The two lists stay of one length.
    pub closed spec fn wf(&self) -> bool {
        self.names@.len() == self.addrs@.len()
    }

    /// A table that holds no symbol.
    pub fn empty() -> (r: SymbolTable)
        ensures
            r.wf(),
            r@ == Map::<Seq<char>, u16>::empty(),
    {
        let r = SymbolTable { names: Vec::new(), addrs: Vec::new() };
        assert(views(r.names@) =~= Seq::<Seq<char>>::empty());
        r
    }

    /// Binds `name` to `addr`.
    pub fn insert(&mut self, name: Vec<char>, addr: u16)
        requires
            old(self).wf(),
        ensures
            final(self).wf(),
            final(self)@ == old(self)@.insert(name@, addr),
    {
        let ghost n = name@;
        self.names.push(name);
        self.addrs.push(addr);
        assert(views(self.names@).drop_last() =~= views(old(self).names@));
        assert(self.addrs@.drop_last() =~= old(self).addrs@);
        assert(views(self.names@).last() == n);
    }

    /// The address bound to `name`, if any.
    pub fn get(&self, name: &[char]) -> (r: Option<u16>)
        requires
            self.wf(),
        ensures
            r == if self@.contains_key(name@) {
                Some(self@[name@])
            } else {
                None
            },
    {
        let ghost ns = views(self.names@);
        let ghost ad = self.addrs@;
        let ghost k = name@;
        let mut i: usize = self.names.len();
        assert(ns.subrange(0, i as int) =~= ns);
        assert(ad.subrange(0, i as int) =~= ad);
        while i > 0
            invariant
                self.wf(),
                ns == views(self.names@),
                ad == self.addrs@,
                k == name@,
                i <= ns.len(),
                bindings_map(ns, ad).contains_key(k) == bindings_map(
                    ns.subrange(0, i as int),
                    ad.subrange(0, i as int),
                ).contains_key(k),
                bindings_map(ns, ad).contains_key(k) ==> bindings_map(ns, ad)[k] == bindings_map(
                    ns.subrange(0, i as int),
                    ad.subrange(0, i as int),
                )[k],
            decreases i,
        {
            let ghost before_n = ns.subrange(0, i as int);
            let ghost before_a = ad.subrange(0, i as int);
            assert(before_n.drop_last() =~= ns.subrange(0, i - 1));
            assert(before_a.drop_last() =~= ad.subrange(0, i - 1));
            assert(before_n.last() == self.names@[i - 1]@);
            if same_chars(&self.names[i - 1], name) {
                return Some(self.addrs[i - 1]);
            }
            i = i - 1;
        }
        None
    }

    /// A table that holds the predefined symbols alone.
    pub fn predefined() -> (r: SymbolTable)
        ensures
            r.wf(),
            r@ == predefined(),
    {
        let mut t = SymbolTable::empty();
        t.insert(vec!['R', '0'], 0);
        t.insert(vec!['R', '1'], 1);
        t.insert(vec!['R', '2'], 2);
        t.insert(vec!['R', '3'], 3);
        t.insert(vec!['R', '4'], 4);
        t.insert(vec!['R', '5'], 5);
        t.insert(vec!['R', '6'], 6);
        t.insert(vec!['R', '7'], 7);
        t.insert(vec!['R', '8'], 8);
        t.insert(vec!['R', '9'], 9);
        t.insert(vec!['R', '1', '0'], 10);
        t.insert(vec!['R', '1', '1'], 11);
        t.insert(vec!['R', '1', '2'], 12);
        t.insert(vec!['R', '1', '3'], 13);
        t.insert(vec!['R', '1', '4'], 14);
        t.insert(vec!['R', '1', '5'], 15);
        t.insert(vec!['S', 'P'], 0);
        t.insert(vec!['L', 'C', 'L'], 1);
        t.insert(vec!['A', 'R', 'G'], 2);
        t.insert(vec!['T', 'H', 'I', 'S'], 3);
        t.insert(vec!['T', 'H', 'A', 'T'], 4);
        t.insert(vec!['S', 'C', 'R', 'E', 'E', 'N'], 16384);
        t.insert(vec!['K', 'B', 'D'], 24576);
        t
    }
}

} // verus!
