use vstd::prelude::*;
use super::position::Position;
use super::piece::Piece;

verus! {

/// No position occurs twice among the keys of `s`.
pub open spec fn keys_distinct(s: Seq<(Position, Piece)>) -> bool {
    forall|i: int, j: int| 0 <= i < s.len() && 0 <= j < s.len() && i != j ==> s[i].0 != s[j].0
}

/// The map that an association list of distinct keys stands for.
pub open spec fn map_of(s: Seq<(Position, Piece)>) -> Map<Position, Piece> {
    Map::new(
        |p: Position| exists|i: int| 0 <= i < s.len() && s[i].0 == p,
        |p: Position| s[choose|i: int| 0 <= i < s.len() && s[i].0 == p].1,
    )
}

/// Each entry of an association list of distinct keys is what the map holds at its key.
pub proof fn lemma_map_of_entry(s: Seq<(Position, Piece)>, i: int)
    requires
        keys_distinct(s),
        0 <= i < s.len(),
    ensures
        map_of(s).contains_key(s[i].0),
        map_of(s)[s[i].0] == s[i].1,
{
    let p = s[i].0;
    assert(exists|j: int| 0 <= j < s.len() && s[j].0 == p);
    let j = choose|j: int| 0 <= j < s.len() && s[j].0 == p;
    assert(j == i);
}

/// The place of key `p` in the list.
pub open spec fn key_index(s: Seq<(Position, Piece)>, p: Position) -> int {
    choose|i: int| 0 <= i < s.len() && s[i].0 == p
}

/// The list after putting `v` on `p`: replaced in place, or appended.
pub open spec fn seq_insert(s: Seq<(Position, Piece)>, p: Position, v: Piece) -> Seq<(Position, Piece)> {
    if exists|i: int| 0 <= i < s.len() && s[i].0 == p {
        s.update(key_index(s, p), (p, v))
    } else {
        s.push((p, v))
    }
}

/// The list after taking the entry of `p` out of it.
pub open spec fn seq_remove(s: Seq<(Position, Piece)>, p: Position) -> Seq<(Position, Piece)> {
    if exists|i: int| 0 <= i < s.len() && s[i].0 == p {
        s.remove(key_index(s, p))
    } else {
        s
    }
}

/// Board contents: which piece stands on which position.
///
/// It behaves as a finite map from positions to pieces; the entries are kept
/// in a list whose order is the order in which the pieces are walked.
#[derive(Debug)]
pub struct PieceMap {
    entries: Vec<(Position, Piece)>,
}

impl View for PieceMap {
    type V = Map<Position, Piece>;

    closed spec fn view(&self) -> Map<Position, Piece> {
        map_of(self.entries@)
    }
}

impl PieceMap {
    /// No position occurs twice among the entries.
    pub closed spec fn wf(self) -> bool {
        keys_distinct(self.entries@)
    }

    /// The entries in the order in which they are walked.
    pub closed spec fn seq(self) -> Seq<(Position, Piece)> {
        self.entries@
    }

    /// The walk order holds each key of the map once, with its value.
    pub proof fn lemma_seq(&self)
        requires
            self.wf(),
        ensures
            keys_distinct(self.seq()),
            self@ == map_of(self.seq()),
            forall|i: int|
                0 <= i < self.seq().len() ==> #[trigger] self@.contains_key(self.seq()[i].0)
                    && self@[self.seq()[i].0] == self.seq()[i].1,
            forall|p: Position|
                #[trigger] self@.contains_key(p) ==> exists|i: int|
                    0 <= i < self.seq().len() && self.seq()[i].0 == p,
    {
        assert forall|i: int| 0 <= i < self.seq().len() implies #[trigger] self@.contains_key(
            self.seq()[i].0,
        ) && self@[self.seq()[i].0] == self.seq()[i].1 by {
            lemma_map_of_entry(self.entries@, i);
        }
    }

    /// An empty board.
    pub fn new() -> (m: Self)
        ensures
            m.wf(),
            m@ == Map::<Position, Piece>::empty(),
            m.seq().len() == 0,
    {
        let m = PieceMap { entries: Vec::new() };
        assert(m@ =~= Map::<Position, Piece>::empty());
        m
    }

    fn find(&self, pos: &Position) -> (r: Option<usize>)
        ensures
            match r {
                Some(i) => i < self.seq().len() && self.seq()[i as int].0 == *pos,
                None => forall|i: int| 0 <= i < self.seq().len() ==> self.seq()[i].0 != *pos,
            },
    {
        let mut i: usize = 0;
        while i < self.entries.len()
            invariant
                i <= self.entries@.len(),
                forall|j: int| 0 <= j < i ==> self.entries@[j].0 != *pos,
            decreases self.entries@.len() - i,
        {
            let e = &self.entries[i];
            if e.0.row == pos.row && e.0.col == pos.col {
                return Some(i);
            }
            i = i + 1;
        }
        None
    }

    /// Number of pieces on the board.
    pub fn len(&self) -> (n: usize)
        requires
            self.wf(),
        ensures
            n == self@.len(),
            n == self.seq().len(),
    {
        proof {
            self.lemma_len();
        }
        self.entries.len()
    }

    proof fn lemma_len(&self)
        requires
            keys_distinct(self.entries@),
        ensures
            self@.len() == self.entries@.len(),
    {
        let s = self.entries@;
        let ks = s.map_values(|e: (Position, Piece)| e.0);
        assert(ks.no_duplicates()) by {
            assert forall|i: int, j: int|
                0 <= i < ks.len() && 0 <= j < ks.len() && i != j implies ks[i] != ks[j] by {
                assert(ks[i] == s[i].0);
                assert(ks[j] == s[j].0);
            }
        }
        ks.unique_seq_to_set();
        assert(self@.dom() =~= ks.to_set()) by {
            assert forall|p: Position| self@.dom().contains(p) implies ks.to_set().contains(p) by {
                let i = choose|i: int| 0 <= i < s.len() && s[i].0 == p;
                assert(ks[i] == p);
            }
            assert forall|p: Position| ks.to_set().contains(p) implies self@.dom().contains(p) by {
                let i = choose|i: int| 0 <= i < ks.len() && ks[i] == p;
                assert(s[i].0 == p);
            }
        }
    }

    /// Whether the board is empty.
    pub fn is_empty(&self) -> (b: bool)
        requires
            self.wf(),
        ensures
            b == (self@.len() == 0),
    {
        self.len() == 0
    }

    /// The entry at place `i` of the walk order.
    pub fn entry_at(&self, i: usize) -> (e: (Position, Piece))
        requires
            i < self.seq().len(),
        ensures
            e == self.seq()[i as int],
    {
        self.entries[i]
    }

    /// Whether a piece stands on `pos`.
    pub fn contains_key(&self, pos: &Position) -> (b: bool)
        requires
            self.wf(),
        ensures
            b == self@.contains_key(*pos),
    {
        proof {
            self.lemma_seq();
        }
        match self.find(pos) {
            Some(_) => true,
            None => false,
        }
    }

    /// The piece on `pos`, if any.
    pub fn get(&self, pos: &Position) -> (r: Option<&Piece>)
        requires
            self.wf(),
        ensures
            r == (if self@.contains_key(*pos) {
                Some(&self@[*pos])
            } else {
                None
            }),
    {
        proof {
            self.lemma_seq();
        }
        match self.find(pos) {
            Some(i) => Some(&self.entries[i].1),
            None => None,
        }
    }

    /// Puts `piece` on `pos`, handing back what stood there before.
    pub fn insert(&mut self, pos: Position, piece: Piece) -> (r: Option<Piece>)
        requires
            old(self).wf(),
        ensures
            final(self).wf(),
            final(self)@ == old(self)@.insert(pos, piece),
            final(self).seq() == seq_insert(old(self).seq(), pos, piece),
            r == (if old(self)@.contains_key(pos) {
                Some(old(self)@[pos])
            } else {
                None
            }),
    {
        proof {
            self.lemma_seq();
        }
        let ghost old_s = self.entries@;
        match self.find(&pos) {
            Some(i) => {
                proof {
                    let k = key_index(old_s, pos);
                    assert(k == i);
                }
                let prev = self.entries[i].1;
                self.entries.set(i, (pos, piece));
                proof {
                    let s = self.entries@;
                    assert(s =~= old_s.update(i as int, (pos, piece)));
                    assert forall|p: Position| #![auto]
                        self@.contains_key(p) == old(self)@.insert(pos, piece).contains_key(p) by {
                        if p != pos {
                            if old(self)@.contains_key(p) {
                                let j = choose|j: int| 0 <= j < old_s.len() && old_s[j].0 == p;
                                assert(s[j].0 == p);
                            }
                        } else {
                            assert(s[i as int].0 == p);
                        }
                    }
                    assert forall|p: Position| #[trigger] self@.contains_key(p) implies self@[p]
                        == old(self)@.insert(pos, piece)[p] by {
                        let j = choose|j: int| 0 <= j < s.len() && s[j].0 == p;
                        lemma_map_of_entry(s, j);
                        if j != i {
                            lemma_map_of_entry(old_s, j);
                        }
                    }
                    assert(self@ =~= old(self)@.insert(pos, piece));
                }
                Some(prev)
            },
            None => {
                self.entries.push((pos, piece));
                proof {
                    let s = self.entries@;
                    assert(s =~= old_s.push((pos, piece)));
                    assert forall|p: Position| #![auto]
                        self@.contains_key(p) == old(self)@.insert(pos, piece).contains_key(p) by {
                        if p != pos {
                            if old(self)@.contains_key(p) {
                                let j = choose|j: int| 0 <= j < old_s.len() && old_s[j].0 == p;
                                assert(s[j].0 == p);
                            }
                        } else {
                            assert(s[old_s.len() as int].0 == p);
                        }
                    }
                    assert forall|p: Position| #[trigger] self@.contains_key(p) implies self@[p]
                        == old(self)@.insert(pos, piece)[p] by {
                        let j = choose|j: int| 0 <= j < s.len() && s[j].0 == p;
                        lemma_map_of_entry(s, j);
                        if j != old_s.len() {
                            lemma_map_of_entry(old_s, j);
                        }
                    }
                    assert(self@ =~= old(self)@.insert(pos, piece));
                }
                None
            },
        }
    }

    /// Takes the piece off `pos`, handing it back.
    pub fn remove(&mut self, pos: &Position) -> (r: Option<Piece>)
        requires
            old(self).wf(),
        ensures
            final(self).wf(),
            final(self)@ == old(self)@.remove(*pos),
            final(self).seq() == seq_remove(old(self).seq(), *pos),
            r == (if old(self)@.contains_key(*pos) {
                Some(old(self)@[*pos])
            } else {
                None
            }),
    {
        proof {
            self.lemma_seq();
        }
        let ghost old_s = self.entries@;
        match self.find(pos) {
            Some(i) => {
                proof {
                    let k = key_index(old_s, *pos);
                    assert(k == i);
                }
                let e = self.entries.remove(i);
                proof {
                    let s = self.entries@;
                    assert(s =~= old_s.remove(i as int));
                    assert forall|p: Position| #![auto]
                        self@.contains_key(p) == old(self)@.remove(*pos).contains_key(p) by {
                        if self@.contains_key(p) {
                            let j = choose|j: int| 0 <= j < s.len() && s[j].0 == p;
                            if j < i {
                                assert(old_s[j].0 == p);
                            } else {
                                assert(old_s[j + 1].0 == p);
                            }
                        }
                        if old(self)@.remove(*pos).contains_key(p) {
                            let j = choose|j: int| 0 <= j < old_s.len() && old_s[j].0 == p;
                            if j < i {
                                assert(s[j].0 == p);
                            } else {
                                assert(j != i);
                                assert(s[j - 1].0 == p);
                            }
                        }
                    }
                    assert forall|p: Position| #[trigger] self@.contains_key(p) implies self@[p]
                        == old(self)@.remove(*pos)[p] by {
                        let j = choose|j: int| 0 <= j < s.len() && s[j].0 == p;
                        lemma_map_of_entry(s, j);
                        if j < i {
                            lemma_map_of_entry(old_s, j);
                        } else {
                            lemma_map_of_entry(old_s, j + 1);
                        }
                    }
                    assert(self@ =~= old(self)@.remove(*pos));
                }
                Some(e.1)
            },
            None => {
                proof {
                    assert(self@ =~= old(self)@.remove(*pos));
                }
                None
            },
        }
    }

    /// Takes every piece off the board.
    pub fn clear(&mut self)
        ensures
            final(self).wf(),
            final(self)@ == Map::<Position, Piece>::empty(),
    {
        self.entries = Vec::new();
        assert(self@ =~= Map::<Position, Piece>::empty());
    }

    /// The pieces in walk order.
    pub fn values(&self) -> (v: Vec<Piece>)
        ensures
            v@ == self.seq().map_values(|e: (Position, Piece)| e.1),
    {
        let mut v: Vec<Piece> = Vec::new();
        let mut i: usize = 0;
        while i < self.entries.len()
            invariant
                i <= self.entries@.len(),
                v@ == self.entries@.subrange(0, i as int).map_values(|e: (Position, Piece)| e.1),
            decreases self.entries@.len() - i,
        {
            v.push(self.entries[i].1);
            i = i + 1;
            assert(v@ =~= self.entries@.subrange(0, i as int).map_values(
                |e: (Position, Piece)| e.1,
            ));
        }
        assert(self.entries@.subrange(0, i as int) =~= self.entries@);
        v
    }

    /// The (position, piece) entries in walk order.
    pub fn iter(&self) -> (v: &Vec<(Position, Piece)>)
        ensures
            v@ == self.seq(),
    {
        &self.entries
    }

    /// A copy of the board, walked in the same order.
    pub fn duplicate(&self) -> (c: Self)
        ensures
            c.wf() == self.wf(),
            c@ == self@,
            c.seq() == self.seq(),
    {
        let mut v: Vec<(Position, Piece)> = Vec::new();
        let mut i: usize = 0;
        while i < self.entries.len()
            invariant
                i <= self.entries@.len(),
                v@ == self.entries@.subrange(0, i as int),
            decreases self.entries@.len() - i,
        {
            v.push(self.entries[i]);
            i = i + 1;
            assert(v@ =~= self.entries@.subrange(0, i as int));
        }
        assert(self.entries@.subrange(0, i as int) =~= self.entries@);
        PieceMap { entries: v }
    }
}

impl Clone for PieceMap {
    fn clone(&self) -> (c: Self)
        ensures
            c.wf() == self.wf(),
            c@ == self@,
            c.seq() == self.seq(),
    {
        self.duplicate()
    }
}

} // verus!
