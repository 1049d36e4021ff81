use vstd::prelude::*;
use crate::models::position::{Position, on_junqi_board};
use crate::models::piece::{Piece, Player};
use crate::models::piece_map::PieceMap;
use super::xiangqi_rules::{can_land, dist};
use super::xiangqi_moves::can_move_to;
use super::junqi_rules::{is_railway, is_camp, adjacent, rail_path, rail_dest, basic_step};

verus! {

/// The place of a square of the Junqi board in a row-major table.
pub open spec fn cell(p: Position) -> int {
    p.row * 5 + p.col
}

/// The number of `true` entries.
pub open spec fn count_true(s: Seq<bool>) -> nat
    decreases s.len(),
{
    if s.len() == 0 {
        0
    } else {
        count_true(s.drop_last()) + if s.last() {
            1nat
        } else {
            0nat
        }
    }
}

proof fn lemma_count_true_le(s: Seq<bool>)
    ensures
        count_true(s) <= s.len(),
    decreases s.len(),
{
    if s.len() > 0 {
        lemma_count_true_le(s.drop_last());
    }
}

proof fn lemma_count_true_set(s: Seq<bool>, i: int)
    requires
        0 <= i < s.len(),
        !s[i],
    ensures
        count_true(s.update(i, true)) == count_true(s) + 1,
    decreases s.len(),
{
    let t = s.update(i, true);
    if i == s.len() - 1 {
        assert(t.drop_last() =~= s.drop_last());
    } else {
        assert(t.drop_last() =~= s.drop_last().update(i, true));
        lemma_count_true_set(s.drop_last(), i);
    }
}

proof fn lemma_count_true_all_false(n: nat)
    ensures
        count_true(Seq::new(n, |i: int| false)) == 0,
    decreases n,
{
    if n > 0 {
        assert(Seq::new(n, |i: int| false).drop_last() =~= Seq::new((n - 1) as nat, |i: int| false));
        lemma_count_true_all_false((n - 1) as nat);
    }
}

/// Whether `p` lies on the railway.
pub fn railway_exec(p: Position) -> (b: bool)
    ensures
        b == is_railway(p),
{
    if !(p.row < 12 && p.col < 5) {
        return false;
    }
    let camp = (p.row == 10 && (p.col == 1 || p.col == 3)) || (p.row == 11 && (p.col == 0
        || p.col == 2 || p.col == 4)) || (p.row == 0 && (p.col == 0 || p.col == 2 || p.col == 4))
        || (p.row == 1 && (p.col == 1 || p.col == 3));
    !camp
}

/// The state of the railway search.
pub open spec fn bfs_inv(
    m: Map<Position, Piece>,
    from: Position,
    player: Player,
    visited: Seq<bool>,
    queue: Seq<Position>,
    res: Seq<Position>,
) -> bool {
    &&& visited.len() == 60
    &&& queue.len() >= 1
    &&& queue[0] == from
    &&& queue.no_duplicates()
    &&& count_true(visited) == queue.len()
    &&& forall|i: int| 0 <= i < queue.len() ==> on_junqi_board(#[trigger] queue[i])
    &&& forall|p: Position| on_junqi_board(p) ==> (visited[#[trigger] cell(p)] <==> queue.contains(p))
    &&& forall|i: int|
        0 <= i < queue.len() ==> exists|ps: Seq<Position>|
            rail_path(m, from, ps) && ps.last() == #[trigger] queue[i]
    &&& forall|i: int| 1 <= i < queue.len() ==> res.contains(#[trigger] queue[i])
    &&& forall|x: Position| #[trigger] res.contains(x) ==> rail_dest(m, from, x, player)
}

/// Every neighbour of the first `k` searched squares has been dealt with.
pub open spec fn bfs_closed(
    m: Map<Position, Piece>,
    player: Player,
    queue: Seq<Position>,
    res: Seq<Position>,
    k: int,
) -> bool {
    forall|i: int, w: Position|
        0 <= i < k && #[trigger] adjacent(queue[i], w) && is_railway(w) ==> (if m.contains_key(w) {
            m[w].player != player ==> res.contains(w)
        } else {
            queue.contains(w)
        })
}

/// `w` is a railway square held by a piece of the other side of `player`.
#[verifier::opaque]
pub open spec fn enemy_rail(m: Map<Position, Piece>, player: Player, w: Position) -> bool {
    is_railway(w) && m.contains_key(w) && m[w].player != player
}

/// 1 for true, 0 for false.
pub open spec fn hit(b: bool) -> nat {
    if b {
        1
    } else {
        0
    }
}

/// How many of the four squares next to `u` are railway squares held by the other side.
pub open spec fn enemy_hits(m: Map<Position, Piece>, player: Player, u: Position) -> nat {
    hit(u.col + 1 < 5 && enemy_rail(m, player, Position { row: u.row, col: (u.col + 1) as u8 }))
        + hit(u.col >= 1 && enemy_rail(m, player, Position { row: u.row, col: (u.col - 1) as u8 }))
        + hit(u.row + 1 < 12 && enemy_rail(m, player, Position { row: (u.row + 1) as u8, col: u.col }))
        + hit(u.row >= 1 && enemy_rail(m, player, Position { row: (u.row - 1) as u8, col: u.col }))
}

/// For each searched square: one for the square, one for each attack on an
/// enemy railway square next to it.
pub open spec fn seq_weight(m: Map<Position, Piece>, player: Player, s: Seq<Position>) -> nat
    decreases s.len(),
{
    if s.len() == 0 {
        0
    } else {
        seq_weight(m, player, s.drop_last()) + 1 + enemy_hits(m, player, s.last())
    }
}

/// The square at place `k` of the row-major table of the Junqi board.
pub open spec fn cell_pos(k: int) -> Position {
    Position { row: (k / 5) as u8, col: (k % 5) as u8 }
}

/// `f(0) + ... + f(n - 1)`.
pub open spec fn cells_sum(n: nat, f: spec_fn(int) -> nat) -> nat
    decreases n,
{
    if n == 0 {
        0
    } else {
        cells_sum((n - 1) as nat, f) + f(n - 1)
    }
}

/// `p` can be reached from `from` over free railway squares (or is `from`).
pub open spec fn reached(m: Map<Position, Piece>, from: Position, p: Position) -> bool {
    exists|ps: Seq<Position>| #[trigger] rail_path(m, from, ps) && ps.last() == p
}

/// The length of the list of railway destinations of an engineer of `player`
/// on `from`: each square reached over free railway once, and each enemy
/// railway square once for every reached square (or `from`) next to it.
pub open spec fn rail_count(m: Map<Position, Piece>, from: Position, player: Player) -> nat {
    (cells_sum(
        60,
        |k: int|
            if reached(m, from, cell_pos(k)) {
                1 + enemy_hits(m, player, cell_pos(k))
            } else {
                0nat
            },
    ) - 1) as nat
}

proof fn lemma_cells_sum_ext(n: nat, f: spec_fn(int) -> nat, g: spec_fn(int) -> nat)
    requires
        forall|k: int| 0 <= k < n ==> #[trigger] f(k) == g(k),
    ensures
        cells_sum(n, f) == cells_sum(n, g),
    decreases n,
{
    if n > 0 {
        lemma_cells_sum_ext((n - 1) as nat, f, g);
    }
}

proof fn lemma_cells_sum_point(n: nat, f: spec_fn(int) -> nat, g: spec_fn(int) -> nat, c: int, v: nat)
    requires
        forall|k: int| 0 <= k < n ==> #[trigger] f(k) == g(k) + if k == c {
            v
        } else {
            0nat
        },
    ensures
        cells_sum(n, f) == cells_sum(n, g) + if 0 <= c < n {
            v
        } else {
            0nat
        },
    decreases n,
{
    if n > 0 {
        lemma_cells_sum_point((n - 1) as nat, f, g, c, v);
    }
}

proof fn lemma_cell_pos(k: int, p: Position)
    requires
        0 <= k < 60,
        on_junqi_board(p),
    ensures
        on_junqi_board(cell_pos(k)),
        cell(cell_pos(k)) == k,
        cell_pos(k) == p <==> k == cell(p),
{
}

/// The weight of a list of distinct squares of the board, summed over the table.
proof fn lemma_weight_cells(m: Map<Position, Piece>, player: Player, s: Seq<Position>)
    requires
        s.no_duplicates(),
        forall|i: int| 0 <= i < s.len() ==> on_junqi_board(#[trigger] s[i]),
    ensures
        seq_weight(m, player, s) == cells_sum(
            60,
            |k: int|
                if s.contains(cell_pos(k)) {
                    1 + enemy_hits(m, player, cell_pos(k))
                } else {
                    0nat
                },
        ),
    decreases s.len(),
{
    let f = |k: int|
        if s.contains(cell_pos(k)) {
            1 + enemy_hits(m, player, cell_pos(k))
        } else {
            0nat
        };
    if s.len() == 0 {
        let z = |k: int| 0nat;
        assert forall|k: int| 0 <= k < 60 implies #[trigger] f(k) == z(k) by {}
        lemma_cells_sum_ext(60, f, z);
        assert(cells_sum(60, z) == 0) by {
            lemma_cells_sum_zero(60);
        }
    } else {
        let t = s.drop_last();
        let x = s.last();
        assert(t.no_duplicates());
        assert forall|i: int| 0 <= i < t.len() implies on_junqi_board(#[trigger] t[i]) by {
            assert(t[i] == s[i]);
        }
        lemma_weight_cells(m, player, t);
        let g = |k: int|
            if t.contains(cell_pos(k)) {
                1 + enemy_hits(m, player, cell_pos(k))
            } else {
                0nat
            };
        assert(on_junqi_board(x));
        let c = cell(x);
        let v = 1 + enemy_hits(m, player, x);
        assert forall|k: int| 0 <= k < 60 implies #[trigger] f(k) == g(k) + if k == c {
            v
        } else {
            0nat
        } by {
            lemma_cell_pos(k, x);
            let p = cell_pos(k);
            if p == x {
                assert(s.contains(p)) by {
                    assert(s[s.len() - 1] == p);
                }
                assert(!t.contains(p)) by {
                    if t.contains(p) {
                        let i = choose|i: int| 0 <= i < t.len() && t[i] == p;
                        assert(s[i] == s[s.len() - 1]);
                    }
                }
            } else {
                assert(s.contains(p) <==> t.contains(p)) by {
                    if s.contains(p) {
                        let i = choose|i: int| 0 <= i < s.len() && s[i] == p;
                        assert(t[i] == p);
                    }
                    if t.contains(p) {
                        let i = choose|i: int| 0 <= i < t.len() && t[i] == p;
                        assert(s[i] == p);
                    }
                }
            }
        }
        lemma_cells_sum_point(60, f, g, c, v);
    }
}

proof fn lemma_cells_sum_zero(n: nat)
    ensures
        cells_sum(n, |k: int| 0nat) == 0,
    decreases n,
{
    if n > 0 {
        lemma_cells_sum_zero((n - 1) as nat);
    }
}

proof fn lemma_cell_injective(p: Position, q: Position)
    requires
        on_junqi_board(p),
        on_junqi_board(q),
        cell(p) == cell(q),
    ensures
        p == q,
{
}

/// No search entry before `q[i]` is next to `w`.
pub open spec fn first_next_to(q: Seq<Position>, i: int, w: Position) -> bool {
    forall|j: int| 0 <= j < i ==> !#[trigger] adjacent(q[j], w)
}

/// What the search lists of the square `w` next to its entry `q[i]` (`on`
/// says that `w` is on the board): `w` when it is a railway square held by the
/// other side of `player`, or a free railway square that no earlier entry is
/// next to; nothing otherwise.
pub open spec fn found_at(
    m: Map<Position, Piece>,
    player: Player,
    q: Seq<Position>,
    i: int,
    w: Position,
    on: bool,
) -> Seq<Position> {
    if on && is_railway(w) && (if m.contains_key(w) {
        m[w].player != player
    } else {
        first_next_to(q, i, w)
    }) {
        seq![w]
    } else {
        Seq::empty()
    }
}

/// What the search lists around its entry `q[i]`: right, left, down, up.
pub open spec fn found_from(m: Map<Position, Piece>, player: Player, q: Seq<Position>, i: int) -> Seq<Position> {
    let u = q[i];
    found_at(m, player, q, i, Position { row: u.row, col: (u.col + 1) as u8 }, u.col + 1 < 5)
        + found_at(m, player, q, i, Position { row: u.row, col: (u.col - 1) as u8 }, u.col >= 1)
        + found_at(m, player, q, i, Position { row: (u.row + 1) as u8, col: u.col }, u.row + 1 < 12)
        + found_at(m, player, q, i, Position { row: (u.row - 1) as u8, col: u.col }, u.row >= 1)
}

/// What the search lists around its first `n` entries, in turn.
pub open spec fn found_upto(m: Map<Position, Piece>, player: Player, q: Seq<Position>, n: nat) -> Seq<Position>
    decreases n,
{
    if n == 0 {
        Seq::empty()
    } else {
        found_upto(m, player, q, (n - 1) as nat) + found_from(m, player, q, n - 1)
    }
}

/// The free squares of `s`, in their order.
pub open spec fn free_squares(m: Map<Position, Piece>, s: Seq<Position>) -> Seq<Position>
    decreases s.len(),
{
    if s.len() == 0 {
        Seq::empty()
    } else {
        free_squares(m, s.drop_last()) + if m.contains_key(s.last()) {
            Seq::empty()
        } else {
            seq![s.last()]
        }
    }
}

/// `v` lists the railway destinations of an engineer of `player` on `from` in
/// the order of a breadth-first search: its entries are `from` and then the
/// free squares of `v` in their order, and around each entry in turn it lists
/// the squares next to it, right, left, down, up, that `found_at` keeps.
pub open spec fn in_search_order(m: Map<Position, Piece>, from: Position, player: Player, v: Seq<Position>) -> bool {
    let q = seq![from] + free_squares(m, v);
    v == found_upto(m, player, q, q.len())
}

/// Some entry before index `hd` is next to `q[k]`.
pub open spec fn has_parent(q: Seq<Position>, k: int, hd: int) -> bool {
    exists|p: int| 0 <= p < hd && #[trigger] adjacent(q[p], q[k])
}

/// Whether an entry is the first next to a square depends only on the entries before it.
proof fn lemma_first_prefix(q1: Seq<Position>, q2: Seq<Position>, i: int, w: Position)
    requires
        0 <= i <= q1.len(),
        i <= q2.len(),
        forall|j: int| 0 <= j < i ==> q1[j] == q2[j],
    ensures
        first_next_to(q1, i, w) == first_next_to(q2, i, w),
{
    if first_next_to(q1, i, w) {
        assert forall|j: int| 0 <= j < i implies !#[trigger] adjacent(q2[j], w) by {
            assert(q1[j] == q2[j]);
            assert(!adjacent(q1[j], w));
        }
    }
    if first_next_to(q2, i, w) {
        assert forall|j: int| 0 <= j < i implies !#[trigger] adjacent(q1[j], w) by {
            assert(q1[j] == q2[j]);
            assert(!adjacent(q2[j], w));
        }
    }
}

/// What the search lists around entry `i` depends only on the entries up to it.
proof fn lemma_found_from_prefix(m: Map<Position, Piece>, player: Player, q1: Seq<Position>, q2: Seq<Position>, i: int)
    requires
        0 <= i < q1.len(),
        i < q2.len(),
        forall|j: int| 0 <= j <= i ==> q1[j] == q2[j],
    ensures
        found_from(m, player, q1, i) == found_from(m, player, q2, i),
{
    let u = q1[i];
    assert(q2[i] == u);
    lemma_first_prefix(q1, q2, i, Position { row: u.row, col: (u.col + 1) as u8 });
    lemma_first_prefix(q1, q2, i, Position { row: u.row, col: (u.col - 1) as u8 });
    lemma_first_prefix(q1, q2, i, Position { row: (u.row + 1) as u8, col: u.col });
    lemma_first_prefix(q1, q2, i, Position { row: (u.row - 1) as u8, col: u.col });
}

/// What the search lists around its first `n` entries depends only on them.
proof fn lemma_found_prefix(m: Map<Position, Piece>, player: Player, q1: Seq<Position>, q2: Seq<Position>, n: nat)
    requires
        n <= q1.len(),
        n <= q2.len(),
        forall|j: int| 0 <= j < n ==> q1[j] == q2[j],
    ensures
        found_upto(m, player, q1, n) == found_upto(m, player, q2, n),
    decreases n,
{
    if n > 0 {
        lemma_found_prefix(m, player, q1, q2, (n - 1) as nat);
        lemma_found_from_prefix(m, player, q1, q2, n - 1);
    }
}

/// The free squares after a push.
proof fn lemma_free_push(m: Map<Position, Piece>, s: Seq<Position>, w: Position)
    ensures
        free_squares(m, s.push(w)) == free_squares(m, s) + if m.contains_key(w) {
            Seq::<Position>::empty()
        } else {
            seq![w]
        },
{
    assert(s.push(w).drop_last() =~= s);
}

/// Growing the queue and the list keeps every looked-around entry dealt with.
proof fn lemma_closed_grow(
    m: Map<Position, Piece>,
    player: Player,
    q0: Seq<Position>,
    r0: Seq<Position>,
    q1: Seq<Position>,
    r1: Seq<Position>,
    hd: int,
)
    requires
        bfs_closed(m, player, q0, r0, hd),
        0 <= hd <= q0.len() <= q1.len(),
        forall|j: int| 0 <= j < q0.len() ==> q1[j] == q0[j],
        forall|x: Position| #[trigger] q0.contains(x) ==> q1.contains(x),
        forall|x: Position| #[trigger] r0.contains(x) ==> r1.contains(x),
    ensures
        bfs_closed(m, player, q1, r1, hd),
{
    assert forall|i: int, w: Position|
        0 <= i < hd && #[trigger] adjacent(q1[i], w) && is_railway(w) implies (if m.contains_key(w) {
            m[w].player != player ==> r1.contains(w)
        } else {
            q1.contains(w)
        }) by {
        assert(q1[i] == q0[i]);
        assert(adjacent(q0[i], w));
    }
}

/// Deals with the neighbour `w` of the searched square `u`.
fn examine(
    m: &PieceMap,
    from: Position,
    player: Player,
    u: Position,
    w: Position,
    visited: &mut Vec<bool>,
    queue: &mut Vec<Position>,
    res: &mut Vec<Position>,
    Ghost(base): Ghost<Seq<Position>>,
    Ghost(hd): Ghost<int>,
)
    requires
        m.wf(),
        m@.contains_key(from),
        m@[from].player == player,
        bfs_inv(m@, from, player, old(visited)@, old(queue)@, old(res)@),
        old(queue)@.contains(u),
        adjacent(u, w),
        on_junqi_board(w),
        0 <= hd < base.len() <= old(queue)@.len(),
        base[hd] == u,
        forall|j: int| 0 <= j < base.len() ==> old(queue)@[j] == base[j],
        forall|k: int| 1 <= k < base.len() ==> #[trigger] has_parent(base, k, hd),
        forall|k: int| base.len() <= k < old(queue)@.len() ==> old(queue)@[k] != w,
        bfs_closed(m@, player, old(queue)@, old(res)@, hd),
        old(queue)@ == seq![from] + free_squares(m@, old(res)@),
    ensures
        final(res)@ == old(res)@ + found_at(m@, player, base, hd, w, true),
        final(queue)@ == seq![from] + free_squares(m@, final(res)@),
        forall|k: int| old(queue)@.len() <= k < final(queue)@.len() ==> final(queue)@[k] == w,
        bfs_closed(m@, player, final(queue)@, final(res)@, hd),
        bfs_inv(m@, from, player, final(visited)@, final(queue)@, final(res)@),
        final(queue)@.len() >= old(queue)@.len(),
        forall|i: int| 0 <= i < old(queue)@.len() ==> final(queue)@[i] == old(queue)@[i],
        forall|x: Position| #[trigger] old(queue)@.contains(x) ==> final(queue)@.contains(x),
        forall|x: Position| #[trigger] old(res)@.contains(x) ==> final(res)@.contains(x),
        final(res)@.len() <= old(res)@.len() + 1,
        final(res)@.len() + old(queue)@.len() == old(res)@.len() + final(queue)@.len() + hit(
            enemy_rail(m@, player, w),
        ),
        is_railway(w) ==> (if m@.contains_key(w) {
            m@[w].player != player ==> final(res)@.contains(w)
        } else {
            final(queue)@.contains(w)
        }),
{
    reveal(enemy_rail);
    let idx = (w.row as usize) * 5 + (w.col as usize);
    assert(idx == cell(w));
    if visited[idx] {
        proof {
            assert(queue@.contains(w));
            let i = choose|i: int| 0 <= i < queue@.len() && queue@[i] == w;
            assert(exists|ps: Seq<Position>| rail_path(m@, from, ps) && ps.last() == queue@[i]);
            let ps = choose|ps: Seq<Position>| rail_path(m@, from, ps) && ps.last() == queue@[i];
            if ps.len() > 1 {
                assert(!m@.contains_key(ps[ps.len() - 1]));
            }
            if is_railway(w) && m@.contains_key(w) {
                assert(queue@.contains(w));
                let i = choose|i: int| 0 <= i < queue@.len() && queue@[i] == w;
                if i == 0 {
                    assert(w == from);
                } else {
                    assert(res@.contains(queue@[i]));
                }
            }
            if is_railway(w) && !m@.contains_key(w) {
                let k = choose|k: int| 0 <= k < queue@.len() && queue@[k] == w;
                assert(k != 0);
                assert(k < base.len());
                assert(base[k] == w);
                assert(has_parent(base, k, hd));
                let p = choose|p: int| 0 <= p < hd && #[trigger] adjacent(base[p], base[k]);
                assert(!first_next_to(base, hd, w));
            }
            assert(res@ =~= old(res)@ + found_at(m@, player, base, hd, w, true));
        }
        return;
    }
    if !railway_exec(w) {
        assert(res@ =~= old(res)@ + found_at(m@, player, base, hd, w, true));
        return;
    }
    let ghost pu = choose|ps: Seq<Position>| rail_path(m@, from, ps) && ps.last() == u;
    proof {
        let i = choose|i: int| 0 <= i < queue@.len() && queue@[i] == u;
        assert(exists|ps: Seq<Position>| rail_path(m@, from, ps) && ps.last() == queue@[i]);
        assert(rail_path(m@, from, pu) && pu.last() == u);
    }
    match m.get(&w) {
        Some(pc) => {
            if pc.player != player {
                proof {
                    assert(w != from);
                    assert(rail_path(m@, from, pu) && adjacent(pu.last(), w));
                    assert(rail_dest(m@, from, w, player));
                }
                let ghost r0 = res@;
                res.push(w);
                proof {
                    lemma_free_push(m@, r0, w);
                    assert(free_squares(m@, res@) =~= free_squares(m@, r0));
                    assert forall|x: Position| #[trigger] res@.contains(x) implies rail_dest(m@, from, x, player) by {
                        if x != w {
                            let i = choose|i: int| 0 <= i < res@.len() && res@[i] == x;
                            assert(r0[i] == x);
                            assert(r0.contains(x));
                        }
                    }
                    assert forall|x: Position| #[trigger] r0.contains(x) implies res@.contains(x) by {
                        let i = choose|i: int| 0 <= i < r0.len() && r0[i] == x;
                        assert(res@[i] == x);
                    }
                    assert(res@[res@.len() - 1] == w);
                    assert forall|i: int| 1 <= i < queue@.len() implies res@.contains(#[trigger] queue@[i]) by {
                        assert(r0.contains(queue@[i]));
                    }
                    lemma_closed_grow(m@, player, queue@, r0, queue@, res@, hd);
                }
            } else {
                proof {
                    assert(res@ =~= old(res)@ + found_at(m@, player, base, hd, w, true));
                }
            }
        },
        None => {
            let ghost q0 = queue@;
            let ghost r0 = res@;
            let ghost vis0 = visited@;
            proof {
                assert(w != from);
                assert(rail_path(m@, from, pu) && adjacent(pu.last(), w));
                assert(rail_dest(m@, from, w, player));
                assert(!q0.contains(w));
                assert forall|j: int| 0 <= j < hd implies !#[trigger] adjacent(base[j], w) by {
                    if adjacent(base[j], w) {
                        assert(base[j] == old(queue)@[j]);
                        assert(adjacent(old(queue)@[j], w));
                    }
                }
                lemma_count_true_set(vis0, idx as int);
                lemma_count_true_le(vis0.update(idx as int, true));
            }
            visited.set(idx, true);
            queue.push(w);
            res.push(w);
            proof {
                let q = queue@;
                let r = res@;
                assert(q[q.len() - 1] == w);
                assert(r[r.len() - 1] == w);
                assert forall|x: Position| #[trigger] q0.contains(x) implies q.contains(x) by {
                    let i = choose|i: int| 0 <= i < q0.len() && q0[i] == x;
                    assert(q[i] == x);
                }
                assert forall|x: Position| #[trigger] r0.contains(x) implies r.contains(x) by {
                    let i = choose|i: int| 0 <= i < r0.len() && r0[i] == x;
                    assert(r[i] == x);
                }
                assert forall|x: Position| #[trigger] r.contains(x) implies rail_dest(m@, from, x, player) by {
                    if x != w {
                        let i = choose|i: int| 0 <= i < r.len() && r[i] == x;
                        assert(r0[i] == x);
                        assert(r0.contains(x));
                    }
                }
                assert forall|p: Position| on_junqi_board(p) implies (visited@[#[trigger] cell(p)] <==> q.contains(p)) by {
                    if p == w {
                    } else {
                        if cell(p) == cell(w) {
                            lemma_cell_injective(p, w);
                        }
                        if q.contains(p) {
                            let i = choose|i: int| 0 <= i < q.len() && q[i] == p;
                            assert(q0[i] == p);
                        }
                    }
                }
                assert forall|i: int| 0 <= i < q.len() implies exists|ps: Seq<Position>|
                    rail_path(m@, from, ps) && ps.last() == #[trigger] q[i] by {
                    if i < q0.len() {
                        assert(q[i] == q0[i]);
                    } else {
                        let ps = pu.push(w);
                        assert(rail_path(m@, from, ps));
                        assert(ps.last() == q[i]);
                    }
                }
                assert forall|i: int| 1 <= i < q.len() implies r.contains(#[trigger] q[i]) by {
                    if i < q0.len() {
                        assert(q[i] == q0[i]);
                        assert(r0.contains(q0[i]));
                    }
                }
                assert forall|i: int| 0 <= i < q.len() implies on_junqi_board(#[trigger] q[i]) by {
                    if i < q0.len() {
                        assert(q[i] == q0[i]);
                    }
                }
                assert(q.no_duplicates()) by {
                    assert forall|i: int, j: int| 0 <= i < q.len() && 0 <= j < q.len() && i != j implies q[i] != q[j] by {
                        if i < q0.len() && j < q0.len() {
                        } else if i < q0.len() {
                            assert(q0.contains(q[i]));
                        } else {
                            assert(q0.contains(q[j]));
                        }
                    }
                }
                lemma_free_push(m@, r0, w);
                assert(q =~= seq![from] + free_squares(m@, r));
                assert(r =~= r0 + found_at(m@, player, base, hd, w, true));
                lemma_closed_grow(m@, player, q0, r0, q, r, hd);
            }
        },
    }
}

/// Deals with the neighbours `a` and `b` of the searched square `u`, each
/// one only where its flag says it is on the board.
#[verifier::spinoff_prover]
#[verifier::rlimit(100)]
fn expand_two(
    m: &PieceMap,
    from: Position,
    player: Player,
    u: Position,
    a: Position,
    on_a: bool,
    b: Position,
    on_b: bool,
    visited: &mut Vec<bool>,
    queue: &mut Vec<Position>,
    res: &mut Vec<Position>,
    Ghost(base): Ghost<Seq<Position>>,
    Ghost(hd): Ghost<int>,
)
    requires
        m.wf(),
        m@.contains_key(from),
        m@[from].player == player,
        bfs_inv(m@, from, player, old(visited)@, old(queue)@, old(res)@),
        old(queue)@.contains(u),
        on_a ==> adjacent(u, a) && on_junqi_board(a),
        on_b ==> adjacent(u, b) && on_junqi_board(b),
        a != b,
        0 <= hd < base.len() <= old(queue)@.len(),
        base[hd] == u,
        forall|j: int| 0 <= j < base.len() ==> old(queue)@[j] == base[j],
        forall|k: int| 1 <= k < base.len() ==> #[trigger] has_parent(base, k, hd),
        forall|k: int| base.len() <= k < old(queue)@.len() ==> old(queue)@[k] != a && old(queue)@[k] != b,
        bfs_closed(m@, player, old(queue)@, old(res)@, hd),
        old(queue)@ == seq![from] + free_squares(m@, old(res)@),
    ensures
        bfs_inv(m@, from, player, final(visited)@, final(queue)@, final(res)@),
        final(queue)@.len() >= old(queue)@.len(),
        forall|i: int| 0 <= i < old(queue)@.len() ==> final(queue)@[i] == old(queue)@[i],
        forall|x: Position| #[trigger] old(queue)@.contains(x) ==> final(queue)@.contains(x),
        forall|x: Position| #[trigger] old(res)@.contains(x) ==> final(res)@.contains(x),
        final(res)@.len() <= old(res)@.len() + 2,
        final(res)@.len() + old(queue)@.len() == old(res)@.len() + final(queue)@.len()
            + hit(on_a && enemy_rail(m@, player, a)) + hit(on_b && enemy_rail(m@, player, b)),
        on_a && is_railway(a) ==> (if m@.contains_key(a) {
            m@[a].player != player ==> final(res)@.contains(a)
        } else {
            final(queue)@.contains(a)
        }),
        on_b && is_railway(b) ==> (if m@.contains_key(b) {
            m@[b].player != player ==> final(res)@.contains(b)
        } else {
            final(queue)@.contains(b)
        }),
        final(res)@ == old(res)@ + found_at(m@, player, base, hd, a, on_a) + found_at(m@, player, base, hd, b, on_b),
        final(queue)@ == seq![from] + free_squares(m@, final(res)@),
        bfs_closed(m@, player, final(queue)@, final(res)@, hd),
        forall|k: int| old(queue)@.len() <= k < final(queue)@.len() ==> (on_a && #[trigger] final(queue)@[k] == a)
            || (on_b && final(queue)@[k] == b),
{
    let ghost q0 = queue@;
    let ghost r0 = res@;
    if on_a {
        examine(m, from, player, u, a, visited, queue, res, Ghost(base), Ghost(hd));
    }
    let ghost q1 = queue@;
    let ghost r1 = res@;
    proof {
        assert(r1 =~= r0 + found_at(m@, player, base, hd, a, on_a));
        assert forall|k: int| q0.len() <= k < q1.len() implies on_a && q1[k] == a by {}
        assert forall|k: int| base.len() <= k < q1.len() implies q1[k] != b by {
            if k < q0.len() {
                assert(q1[k] == q0[k]);
            }
        }
        assert forall|j: int| 0 <= j < base.len() implies q1[j] == base[j] by {
            assert(q1[j] == q0[j]);
        }
    }
    if on_b {
        examine(m, from, player, u, b, visited, queue, res, Ghost(base), Ghost(hd));
    }
    proof {
        assert(res@ =~= r0 + found_at(m@, player, base, hd, a, on_a) + found_at(m@, player, base, hd, b, on_b));
        assert forall|k: int| q0.len() <= k < queue@.len() implies (on_a && #[trigger] queue@[k] == a) || (on_b && queue@[k] == b) by {
            if k < q1.len() {
                assert(queue@[k] == q1[k]);
            }
        }
        assert forall|i: int| 0 <= i < q0.len() implies queue@[i] == q0[i] by {
            assert(q1[i] == q0[i]);
        }
        if !on_a {
            assert(q1 == q0 && r1 == r0);
        }
        if !on_b {
            assert(queue@ == q1 && res@ == r1);
        }
    }
}

/// Deals with the four neighbours of the searched square `u`.
#[verifier::spinoff_prover]
#[verifier::rlimit(100)]
fn expand(
    m: &PieceMap,
    from: Position,
    player: Player,
    u: Position,
    visited: &mut Vec<bool>,
    queue: &mut Vec<Position>,
    res: &mut Vec<Position>,
    Ghost(hd): Ghost<int>,
)
    requires
        m.wf(),
        m@.contains_key(from),
        m@[from].player == player,
        bfs_inv(m@, from, player, old(visited)@, old(queue)@, old(res)@),
        old(queue)@.contains(u),
        0 <= hd < old(queue)@.len(),
        old(queue)@[hd] == u,
        forall|k: int| 1 <= k < old(queue)@.len() ==> #[trigger] has_parent(old(queue)@, k, hd),
        bfs_closed(m@, player, old(queue)@, old(res)@, hd),
        old(queue)@ == seq![from] + free_squares(m@, old(res)@),
    ensures
        bfs_inv(m@, from, player, final(visited)@, final(queue)@, final(res)@),
        final(queue)@.len() >= old(queue)@.len(),
        forall|i: int| 0 <= i < old(queue)@.len() ==> final(queue)@[i] == old(queue)@[i],
        forall|x: Position| #[trigger] old(queue)@.contains(x) ==> final(queue)@.contains(x),
        forall|x: Position| #[trigger] old(res)@.contains(x) ==> final(res)@.contains(x),
        final(res)@.len() <= old(res)@.len() + 4,
        final(res)@.len() + old(queue)@.len() == old(res)@.len() + final(queue)@.len()
            + enemy_hits(m@, player, u),
        forall|w: Position| #[trigger] adjacent(u, w) && is_railway(w) ==> (if m@.contains_key(w) {
            m@[w].player != player ==> final(res)@.contains(w)
        } else {
            final(queue)@.contains(w)
        }),
        final(res)@ == old(res)@ + found_from(m@, player, old(queue)@, hd),
        final(queue)@ == seq![from] + free_squares(m@, final(res)@),
        forall|k: int| old(queue)@.len() <= k < final(queue)@.len() ==> adjacent(u, #[trigger] final(queue)@[k]),
{
    let ghost q0 = queue@;
    let ghost r0 = res@;
    assert(on_junqi_board(u)) by {
        let i = choose|i: int| 0 <= i < queue@.len() && queue@[i] == u;
    }
    let ghost right = Position { row: u.row, col: (u.col + 1) as u8 };
    let ghost left = Position { row: u.row, col: (u.col - 1) as u8 };
    let ghost down = Position { row: (u.row + 1) as u8, col: u.col };
    let ghost up = Position { row: (u.row - 1) as u8, col: u.col };
    let on_right = u.col + 1 < 5;
    let on_left = u.col >= 1;
    let on_down = u.row + 1 < 12;
    let on_up = u.row >= 1;
    let rr = if on_right { Position::new(u.row, u.col + 1) } else { Position::new(12, 0) };
    let ll = if on_left { Position::new(u.row, u.col - 1) } else { Position::new(12, 1) };
    let dd = if on_down { Position::new(u.row + 1, u.col) } else { Position::new(12, 2) };
    let pp = if on_up { Position::new(u.row - 1, u.col) } else { Position::new(12, 3) };
    assert(on_right ==> rr == right);
    assert(on_left ==> ll == left);
    assert(on_down ==> dd == down);
    assert(on_up ==> pp == up);
    expand_two(m, from, player, u, rr, on_right, ll, on_left, visited, queue, res, Ghost(q0), Ghost(hd));
    let ghost q2 = queue@;
    let ghost r2 = res@;
    assert forall|k: int| q0.len() <= k < q2.len() implies q2[k] != dd && q2[k] != pp by {
        assert((on_right && q2[k] == rr) || (on_left && q2[k] == ll));
    }
    expand_two(m, from, player, u, dd, on_down, pp, on_up, visited, queue, res, Ghost(q0), Ghost(hd));
    proof {
        lemma_expand_sides(m@, player, u, q0, r0, q2, r2, queue@, res@, hd, rr, ll, dd, pp);
    }
}

/// Putting together the two halves of looking around `u`.
#[verifier::spinoff_prover]
#[verifier::rlimit(50)]
proof fn lemma_expand_sides(
    m: Map<Position, Piece>,
    player: Player,
    u: Position,
    q0: Seq<Position>,
    r0: Seq<Position>,
    q2: Seq<Position>,
    r2: Seq<Position>,
    q4: Seq<Position>,
    r4: Seq<Position>,
    hd: int,
    rr: Position,
    ll: Position,
    dd: Position,
    pp: Position,
)
    requires
        0 <= hd < q0.len(),
        q0[hd] == u,
        on_junqi_board(u),
        u.col + 1 < 5 ==> rr == (Position { row: u.row, col: (u.col + 1) as u8 }),
        u.col >= 1 ==> ll == (Position { row: u.row, col: (u.col - 1) as u8 }),
        u.row + 1 < 12 ==> dd == (Position { row: (u.row + 1) as u8, col: u.col }),
        u.row >= 1 ==> pp == (Position { row: (u.row - 1) as u8, col: u.col }),
        q0.len() <= q2.len() <= q4.len(),
        forall|i: int| 0 <= i < q2.len() ==> q4[i] == q2[i],
        forall|x: Position| #[trigger] r2.contains(x) ==> r4.contains(x),
        forall|x: Position| #[trigger] q2.contains(x) ==> q4.contains(x),
        r2.len() + q0.len() == r0.len() + q2.len() + hit(u.col + 1 < 5 && enemy_rail(m, player, rr)) + hit(
            u.col >= 1 && enemy_rail(m, player, ll),
        ),
        r4.len() + q2.len() == r2.len() + q4.len() + hit(u.row + 1 < 12 && enemy_rail(m, player, dd)) + hit(
            u.row >= 1 && enemy_rail(m, player, pp),
        ),
        u.col + 1 < 5 && is_railway(rr) ==> (if m.contains_key(rr) {
            m[rr].player != player ==> r2.contains(rr)
        } else {
            q2.contains(rr)
        }),
        u.col >= 1 && is_railway(ll) ==> (if m.contains_key(ll) {
            m[ll].player != player ==> r2.contains(ll)
        } else {
            q2.contains(ll)
        }),
        u.row + 1 < 12 && is_railway(dd) ==> (if m.contains_key(dd) {
            m[dd].player != player ==> r4.contains(dd)
        } else {
            q4.contains(dd)
        }),
        u.row >= 1 && is_railway(pp) ==> (if m.contains_key(pp) {
            m[pp].player != player ==> r4.contains(pp)
        } else {
            q4.contains(pp)
        }),
        r2 == r0 + found_at(m, player, q0, hd, rr, u.col + 1 < 5) + found_at(m, player, q0, hd, ll, u.col >= 1),
        r4 == r2 + found_at(m, player, q0, hd, dd, u.row + 1 < 12) + found_at(m, player, q0, hd, pp, u.row >= 1),
        forall|k: int| q0.len() <= k < q2.len() ==> (u.col + 1 < 5 && #[trigger] q2[k] == rr) || (u.col >= 1 && q2[k] == ll),
        forall|k: int| q2.len() <= k < q4.len() ==> (u.row + 1 < 12 && #[trigger] q4[k] == dd) || (u.row >= 1 && q4[k] == pp),
    ensures
        r4.len() + q0.len() == r0.len() + q4.len() + enemy_hits(m, player, u),
        forall|w: Position| #[trigger] adjacent(u, w) && is_railway(w) ==> (if m.contains_key(w) {
            m[w].player != player ==> r4.contains(w)
        } else {
            q4.contains(w)
        }),
        r4 == r0 + found_from(m, player, q0, hd),
        forall|k: int| q0.len() <= k < q4.len() ==> adjacent(u, #[trigger] q4[k]),
{
    assert(r4 =~= r0 + found_from(m, player, q0, hd));
    assert forall|k: int| q0.len() <= k < q4.len() implies adjacent(u, #[trigger] q4[k]) by {
        if k < q2.len() {
            assert(q4[k] == q2[k]);
            assert((u.col + 1 < 5 && q2[k] == rr) || (u.col >= 1 && q2[k] == ll));
        } else {
            assert((u.row + 1 < 12 && q4[k] == dd) || (u.row >= 1 && q4[k] == pp));
        }
    }
}

/// The squares an engineer on railway square `from` may reach.
pub fn rail_moves(m: &PieceMap, from: Position, player: Player) -> (v: Vec<Position>)
    requires
        m.wf(),
        m@.contains_key(from),
        m@[from].player == player,
        is_railway(from),
    ensures
        forall|to: Position| v@.contains(to) <==> rail_dest(m@, from, to, player),
        v@.len() <= 240,
        v@.len() == rail_count(m@, from, player),
        in_search_order(m@, from, player, v@),
{
    let mut visited: Vec<bool> = Vec::new();
    let mut k: usize = 0;
    while k < 60
        invariant
            k <= 60,
            visited@ == Seq::new(k as nat, |i: int| false),
        decreases 60 - k,
    {
        visited.push(false);
        k = k + 1;
        assert(visited@ =~= Seq::new(k as nat, |i: int| false));
    }
    let start = (from.row as usize) * 5 + (from.col as usize);
    proof {
        lemma_count_true_all_false(60);
        lemma_count_true_set(visited@, start as int);
    }
    visited.set(start, true);
    let mut queue: Vec<Position> = Vec::new();
    queue.push(from);
    let mut res: Vec<Position> = Vec::new();
    proof {
        assert(queue@[0] == from);
        assert forall|p: Position| on_junqi_board(p) implies (visited@[#[trigger] cell(p)] <==> queue@.contains(p)) by {
            if p == from {
                assert(queue@[0] == p);
            } else {
                if cell(p) == cell(from) {
                    lemma_cell_injective(p, from);
                }
                if queue@.contains(p) {
                    let i = choose|i: int| 0 <= i < queue@.len() && queue@[i] == p;
                }
            }
        }
        assert forall|i: int| 0 <= i < queue@.len() implies exists|ps: Seq<Position>|
            rail_path(m@, from, ps) && ps.last() == #[trigger] queue@[i] by {
            let ps = seq![from];
            assert(rail_path(m@, from, ps));
            assert(i == 0);
            assert(ps.last() == queue@[i]);
        }
    }
    proof {
        assert(queue@ =~= seq![from] + free_squares(m@, res@));
        assert(res@ =~= found_upto(m@, player, queue@, 0));
    }
    let mut head: usize = 0;
    while head < queue.len()
        invariant
            m.wf(),
            m@.contains_key(from),
            m@[from].player == player,
            is_railway(from),
            bfs_inv(m@, from, player, visited@, queue@, res@),
            head <= queue@.len(),
            queue@.len() <= 60,
            res@.len() <= 4 * head,
            res@.len() + 1 + head == seq_weight(m@, player, queue@.subrange(0, head as int))
                + queue@.len(),
            bfs_closed(m@, player, queue@, res@, head as int),
            forall|k: int| 1 <= k < queue@.len() ==> #[trigger] has_parent(queue@, k, head as int),
            queue@ == seq![from] + free_squares(m@, res@),
            res@ == found_upto(m@, player, queue@, head as nat),
        decreases 60 - head,
    {
        proof {
            lemma_count_true_le(visited@);
        }
        let u = queue[head];
        let ghost q0 = queue@;
        let ghost r0 = res@;
        assert(queue@.contains(u));
        expand(m, from, player, u, &mut visited, &mut queue, &mut res, Ghost(head as int));
        proof {
            assert forall|k: int| 1 <= k < queue@.len() implies #[trigger] has_parent(queue@, k, head + 1) by {
                if k < q0.len() {
                    assert(has_parent(q0, k, head as int));
                    let p = choose|p: int| 0 <= p < head && #[trigger] adjacent(q0[p], q0[k]);
                    assert(queue@[p] == q0[p]);
                    assert(queue@[k] == q0[k]);
                    assert(adjacent(queue@[p], queue@[k]));
                } else {
                    assert(adjacent(u, queue@[k]));
                    assert(queue@[head as int] == u);
                }
            }
            lemma_found_prefix(m@, player, q0, queue@, (head + 1) as nat);
            assert(found_upto(m@, player, q0, (head + 1) as nat) == found_upto(m@, player, q0, head as nat)
                + found_from(m@, player, q0, head as int));
            lemma_count_true_le(visited@);
            let pre = queue@.subrange(0, head + 1);
            assert(pre.drop_last() =~= q0.subrange(0, head as int));
            assert(queue@.subrange(0, head as int) =~= q0.subrange(0, head as int));
            assert(pre.last() == u);
            assert forall|i: int, w: Position|
                0 <= i < head + 1 && #[trigger] adjacent(queue@[i], w) && is_railway(w) implies (if m@.contains_key(w) {
                    m@[w].player != player ==> res@.contains(w)
                } else {
                    queue@.contains(w)
                }) by {
                if i < head {
                    assert(queue@[i] == q0[i]);
                    assert(adjacent(q0[i], w));
                } else {
                    assert(queue@[i] == u);
                }
            }
        }
        head = head + 1;
    }
    proof {
        let q = queue@;
        assert(q.len() == head);
        assert(q.subrange(0, head as int) =~= q);
        assert forall|i: int| 0 <= i < q.len() implies on_junqi_board(#[trigger] q[i]) by {}
        lemma_weight_cells(m@, player, q);
        let f = |k: int|
            if q.contains(cell_pos(k)) {
                1 + enemy_hits(m@, player, cell_pos(k))
            } else {
                0nat
            };
        let g = |k: int|
            if reached(m@, from, cell_pos(k)) {
                1 + enemy_hits(m@, player, cell_pos(k))
            } else {
                0nat
            };
        assert forall|k: int| 0 <= k < 60 implies #[trigger] f(k) == g(k) by {
            lemma_cell_pos(k, from);
            let p = cell_pos(k);
            if q.contains(p) {
                let i = choose|i: int| 0 <= i < q.len() && q[i] == p;
                assert(exists|ps: Seq<Position>| rail_path(m@, from, ps) && ps.last() == q[i]);
            }
            if reached(m@, from, p) {
                let ps = choose|ps: Seq<Position>| #[trigger] rail_path(m@, from, ps) && ps.last() == p;
                lemma_path_searched(m@, from, player, q, res@, ps);
                assert(q.contains(ps[ps.len() - 1]));
            }
        }
        lemma_cells_sum_ext(60, f, g);
        assert forall|to: Position| rail_dest(m@, from, to, player) implies res@.contains(to) by {
            let ps = choose|ps: Seq<Position>| #[trigger] rail_path(m@, from, ps) && adjacent(ps.last(), to);
            lemma_path_searched(m@, from, player, queue@, res@, ps);
            assert(queue@.contains(ps.last()));
            let i = choose|i: int| 0 <= i < queue@.len() && queue@[i] == ps.last();
            assert(adjacent(queue@[i], to));
            if !m@.contains_key(to) {
                assert(queue@.contains(to));
                let j = choose|j: int| 0 <= j < queue@.len() && queue@[j] == to;
                assert(j != 0);
            }
        }
    }
    res
}

/// Every square of a free railway path from `from` has been searched.
proof fn lemma_path_searched(
    m: Map<Position, Piece>,
    from: Position,
    player: Player,
    queue: Seq<Position>,
    res: Seq<Position>,
    ps: Seq<Position>,
)
    requires
        queue.len() >= 1,
        queue[0] == from,
        bfs_closed(m, player, queue, res, queue.len() as int),
        rail_path(m, from, ps),
    ensures
        forall|i: int| 0 <= i < ps.len() ==> queue.contains(#[trigger] ps[i]),
    decreases ps.len(),
{
    if ps.len() == 1 {
        assert forall|i: int| 0 <= i < ps.len() implies queue.contains(#[trigger] ps[i]) by {
            assert(queue[0] == ps[i]);
        }
    } else {
        let pre = ps.drop_last();
        assert(rail_path(m, from, pre)) by {
            assert forall|i: int| 1 <= i < pre.len() implies is_railway(#[trigger] pre[i]) && !m.contains_key(pre[i]) && adjacent(pre[i - 1], pre[i]) by {
                assert(pre[i] == ps[i]);
                assert(pre[i - 1] == ps[i - 1]);
            }
        }
        lemma_path_searched(m, from, player, queue, res, pre);
        assert forall|i: int| 0 <= i < ps.len() implies queue.contains(#[trigger] ps[i]) by {
            if i < ps.len() - 1 {
                assert(pre[i] == ps[i]);
            } else {
                let k = ps.len() - 1;
                assert(queue.contains(pre[k - 1]));
                let j = choose|j: int| 0 <= j < queue.len() && queue[j] == pre[k - 1];
                assert(adjacent(queue[j], ps[k]));
                assert(is_railway(ps[k]) && !m.contains_key(ps[k]));
            }
        }
    }
}

} // verus!
