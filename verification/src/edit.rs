//! The edit overlay: pending cell edits layered on top of a read-only frame.
//!
//! Keeping edits separate from the frame decouples edit latency from frame
//! size. The sheet bakes the overlay into a new frame on save and before any
//! structural change.

use vstd::prelude::*;
use crate::value::Value;

verus! {

/// Address of a cell by zero-based row and column index.
#[derive(Debug, Clone, Copy, PartialEq, Eq, Hash, Structural)]
pub struct CellAddr {
    pub row: usize,
    pub col: usize,
}

impl CellAddr {
    pub fn new(row: usize, col: usize) -> (r: Self)
        ensures
            r.row == row,
            r.col == col,
    {
        Self { row, col }
    }
}

/// The map that a list of `(address, value)` entries spells, later entries
/// taking precedence.
pub open spec fn entries_map(s: Seq<(CellAddr, Value)>) -> Map<CellAddr, Value>
    decreases s.len(),
{
    if s.len() == 0 {
        Map::empty()
    } else {
        entries_map(s.drop_last()).insert(s.last().0, s.last().1)
    }
}

/// No address occurs twice among the entries.
pub open spec fn distinct_addrs(s: Seq<(CellAddr, Value)>) -> bool {
    forall|i: int, j: int| 0 <= i < s.len() && 0 <= j < s.len() && i != j ==> s[i].0 != s[j].0
}

proof fn lemma_last_entry_wins(s: Seq<(CellAddr, Value)>, i: int)
    requires
        0 <= i < s.len(),
        forall|j: int| i < j < s.len() ==> (#[trigger] s[j]).0 != s[i].0,
    ensures
        entries_map(s).contains_key(s[i].0),
        entries_map(s)[s[i].0] == s[i].1,
    decreases s.len(),
{
    if i < s.len() - 1 {
        lemma_last_entry_wins(s.drop_last(), i);
    }
}

proof fn lemma_absent(s: Seq<(CellAddr, Value)>, a: CellAddr)
    requires
        forall|j: int| 0 <= j < s.len() ==> (#[trigger] s[j]).0 != a,
    ensures
        !entries_map(s).contains_key(a),
    decreases s.len(),
{
    if s.len() > 0 {
        lemma_absent(s.drop_last(), a);
    }
}

proof fn lemma_update_entry(s: Seq<(CellAddr, Value)>, i: int, v: Value)
    requires
        0 <= i < s.len(),
        forall|j: int| 0 <= j < s.len() && j != i ==> (#[trigger] s[j]).0 != s[i].0,
    ensures
        entries_map(s.update(i, (s[i].0, v))) == entries_map(s).insert(s[i].0, v),
    decreases s.len(),
{
    let t = s.update(i, (s[i].0, v));
    if i == s.len() - 1 {
        assert(t.drop_last() =~= s.drop_last());
        assert(entries_map(t) =~= entries_map(s).insert(s[i].0, v));
    } else {
        lemma_update_entry(s.drop_last(), i, v);
        assert(t.drop_last() =~= s.drop_last().update(i, (s[i].0, v)));
        assert(entries_map(t) =~= entries_map(s).insert(s[i].0, v));
    }
}

proof fn lemma_remove_entry(s: Seq<(CellAddr, Value)>, i: int)
    requires
        0 <= i < s.len(),
        forall|j: int| 0 <= j < s.len() && j != i ==> (#[trigger] s[j]).0 != s[i].0,
    ensures
        entries_map(s.remove(i)) == entries_map(s).remove(s[i].0),
    decreases s.len(),
{
    let t = s.remove(i);
    if i == s.len() - 1 {
        assert(t =~= s.drop_last());
        lemma_absent(s.drop_last(), s[i].0);
        assert(entries_map(t) =~= entries_map(s).remove(s[i].0));
    } else {
        lemma_remove_entry(s.drop_last(), i);
        assert(t.drop_last() =~= s.drop_last().remove(i));
        assert(t.last() == s.last());
        assert(entries_map(t) =~= entries_map(s).remove(s[i].0));
    }
}

proof fn lemma_entries_dom(s: Seq<(CellAddr, Value)>, a: CellAddr)
    requires
        entries_map(s).contains_key(a),
    ensures
        exists|j: int| 0 <= j < s.len() && (#[trigger] s[j]).0 == a,
    decreases s.len(),
{
    if s.last().0 != a {
        lemma_entries_dom(s.drop_last(), a);
        let j = choose|j: int| 0 <= j < s.drop_last().len() && (#[trigger] s.drop_last()[j]).0 == a;
        assert(s[j] == s.drop_last()[j]);
    } else {
        assert(s[s.len() - 1].0 == a);
    }
}

/// Pending cell edits, keyed by address; at most one edit per cell.
#[derive(Debug, Default)]
pub struct EditOverlay {
    cells: Vec<(CellAddr, Value)>,
}

impl View for EditOverlay {
    type V = Map<CellAddr, Value>;

    closed spec fn view(&self) -> Map<CellAddr, Value> {
        entries_map(self.cells@)
    }
}

impl EditOverlay {
    /// The overlay is well formed: no address is stored twice.
    pub closed spec fn wf(&self) -> bool {
        distinct_addrs(self.cells@)
    }

    /// An overlay with no edits.
    pub fn new() -> (r: Self)
        ensures
            r.wf(),
            r@ == Map::<CellAddr, Value>::empty(),
    {
        let r = EditOverlay { cells: Vec::new() };
        assert(r@ =~= Map::<CellAddr, Value>::empty());
        r
    }

    fn position(&self, addr: CellAddr) -> (r: Option<usize>)
        requires
            self.wf(),
        ensures
            match r {
                Some(i) => i < self.cells@.len() && self.cells@[i as int].0 == addr,
                None => forall|j: int|
                    0 <= j < self.cells@.len() ==> (#[trigger] self.cells@[j]).0 != addr,
            },
    {
        let n = self.cells.len();
        for i in 0..n
            invariant
                n == self.cells@.len(),
                forall|j: int| 0 <= j < i ==> (#[trigger] self.cells@[j]).0 != addr,
        {
            if self.cells[i].0 == addr {
                return Some(i);
            }
        }
        None
    }

    /// The pending edit at `addr`, if any.
    pub fn get(&self, addr: CellAddr) -> (r: Option<&Value>)
        requires
            self.wf(),
        ensures
            match r {
                Some(v) => self@.contains_key(addr) && *v == self@[addr],
                None => !self@.contains_key(addr),
            },
    {
        match self.position(addr) {
            Some(i) => {
                proof {
                    lemma_last_entry_wins(self.cells@, i as int);
                }
                Some(&self.cells[i].1)
            },
            None => {
                proof {
                    lemma_absent(self.cells@, addr);
                }
                None
            },
        }
    }

    /// Record `value` as the edit at `addr`, replacing any earlier edit there.
    pub fn set(&mut self, addr: CellAddr, value: Value)
        requires
            old(self).wf(),
        ensures
            final(self).wf(),
            final(self)@ == old(self)@.insert(addr, value),
    {
        match self.position(addr) {
            Some(i) => {
                proof {
                    lemma_update_entry(self.cells@, i as int, value);
                }
                self.cells.set(i, (addr, value));
            },
            None => {
                let ghost before = self.cells@;
                self.cells.push((addr, value));
                assert(self.cells@.drop_last() =~= before);
            },
        }
    }

    /// Drop the edit at `addr`, if any.
    pub fn clear_cell(&mut self, addr: CellAddr)
        requires
            old(self).wf(),
        ensures
            final(self).wf(),
            final(self)@ == old(self)@.remove(addr),
    {
        match self.position(addr) {
            Some(i) => {
                proof {
                    lemma_remove_entry(self.cells@, i as int);
                }
                self.cells.remove(i);
            },
            None => {
                proof {
                    lemma_absent(self.cells@, addr);
                }
                assert(self@ =~= self@.remove(addr));
            },
        }
    }

    /// Whether there are no pending edits.
    pub fn is_empty(&self) -> (r: bool)
        ensures
            r == (self@ == Map::<CellAddr, Value>::empty()),
    {
        if self.cells.len() == 0 {
            assert(self@ =~= Map::<CellAddr, Value>::empty());
            true
        } else {
            assert(self@.contains_key(self.cells@.last().0));
            false
        }
    }

    /// Every pending edit, each address once, in no promised order.
    pub fn iter(&self) -> (r: Vec<(CellAddr, Value)>)
        requires
            self.wf(),
        ensures
            distinct_addrs(r@),
            entries_map(r@) == self@,
            forall|j: int|
                0 <= j < r@.len() ==> self@.contains_key((#[trigger] r@[j]).0) && self@[r@[j].0]
                    == r@[j].1,
            forall|a: CellAddr|
                self@.contains_key(a) ==> exists|j: int| 0 <= j < r@.len() && (#[trigger] r@[j]).0 == a,
    {
        let n = self.cells.len();
        let mut r: Vec<(CellAddr, Value)> = Vec::new();
        for i in 0..n
            invariant
                n == self.cells@.len(),
                r@ == self.cells@.take(i as int),
        {
            let (a, v) = &self.cells[i];
            r.push((*a, v.copied()));
            assert(r@ =~= self.cells@.take(i + 1));
        }
        assert(r@ =~= self.cells@);
        assert forall|j: int| 0 <= j < r@.len() implies self@.contains_key((#[trigger] r@[j]).0)
            && self@[r@[j].0] == r@[j].1 by {
            lemma_last_entry_wins(self.cells@, j);
        }
        assert forall|a: CellAddr| self@.contains_key(a) implies exists|j: int|
            0 <= j < r@.len() && (#[trigger] r@[j]).0 == a by {
            lemma_entries_dom(self.cells@, a);
        }
        r
    }
}

} // verus!
