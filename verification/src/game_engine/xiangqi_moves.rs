use vstd::prelude::*;
use crate::models::position::{Position, on_xiangqi_board};
use crate::models::piece::{Piece, Player, PieceType, XiangqiPiece, opponent_of};
use crate::models::game_status::GameStatus;
use crate::models::piece_map::PieceMap;
use super::xiangqi_rules::{
    one_general_each,
    is_general, generals_face, in_check, after_move, safe_after, legal_move, no_legal_moves,
    board_ok, xiangqi_status, lemma_after_move_ok, pseudo_move,
    attacks,
    kind_step,
    can_land, in_palace, own_side, general_step, advisor_step, elephant_step, horse_step,
    soldier_step, chariot_step, cannon_step, dist, elephant_eye, horse_leg, horse_shape,
    crossed_river, between_sq, path_clear, one_screen, straight, strictly_between,
};

verus! {

/// Whether a piece of `player` may land on `p`.
pub fn can_move_to(m: &PieceMap, p: Position, player: Player) -> (b: bool)
    requires
        m.wf(),
    ensures
        b == can_land(m@, p, player),
{
    match m.get(&p) {
        None => true,
        Some(pc) => pc.player != player,
    }
}

fn in_palace_exec(p: Position, player: Player) -> (b: bool)
    ensures
        b == in_palace(p, player),
{
    let cols = p.col >= 3 && p.col <= 5;
    match player {
        Player::Red => p.row >= 7 && p.row <= 9 && cols,
        Player::Black => p.row <= 2 && cols,
    }
}

fn own_side_exec(p: Position, player: Player) -> (b: bool)
    ensures
        b == own_side(p, player),
{
    match player {
        Player::Red => p.row >= 5,
        Player::Black => p.row <= 4,
    }
}

/// The place of the step from `from` to `to` in the order in which a piece of kind `k`
/// tries its moves: the general right, left, down, up; the advisor, elephant and horse by
/// their fixed offsets; the chariot and cannon right, left, down, up, nearest square first;
/// the soldier forward, then left, then right.
pub open spec fn step_rank(k: XiangqiPiece, from: Position, to: Position) -> int {
    let dr = to.row - from.row;
    let dc = to.col - from.col;
    match k {
        XiangqiPiece::General => if dr == 0 && dc == 1 {
            0
        } else if dr == 0 && dc == -1 {
            1
        } else if dr == 1 {
            2
        } else {
            3
        },
        XiangqiPiece::Advisor => if dr == 1 && dc == 1 {
            0
        } else if dr == 1 {
            1
        } else if dc == 1 {
            2
        } else {
            3
        },
        XiangqiPiece::Elephant => if dr == 2 && dc == 2 {
            0
        } else if dr == 2 {
            1
        } else if dc == 2 {
            2
        } else {
            3
        },
        XiangqiPiece::Horse => if dr == 2 && dc == 1 {
            0
        } else if dr == 2 {
            1
        } else if dr == -2 && dc == 1 {
            2
        } else if dr == -2 {
            3
        } else if dr == 1 && dc == 2 {
            4
        } else if dr == -1 && dc == 2 {
            5
        } else if dr == 1 {
            6
        } else {
            7
        },
        XiangqiPiece::Chariot => line_rank(from, to),
        XiangqiPiece::Cannon => line_rank(from, to),
        XiangqiPiece::Soldier => if dc == 0 {
            0
        } else if dc == -1 {
            1
        } else {
            2
        },
    }
}

/// Along the lines from `from`: right, then left, then down, then up, nearer before farther.
pub open spec fn line_rank(from: Position, to: Position) -> int {
    let dr = to.row - from.row;
    let dc = to.col - from.col;
    if dr == 0 && dc > 0 {
        dc
    } else if dr == 0 {
        16 - dc
    } else if dr > 0 {
        32 + dr
    } else {
        48 - dr
    }
}

/// `s` lists its squares in the order in which a piece of kind `k` on `from` tries them.
pub open spec fn in_step_order(s: Seq<Position>, k: XiangqiPiece, from: Position) -> bool {
    forall|i: int, j: int| 0 <= i < j < s.len() ==> step_rank(k, from, #[trigger] s[i]) < step_rank(k, from, #[trigger] s[j])
}

/// Pushes `to` when `ok` holds; `to` is new to the list.
fn push_if(v: &mut Vec<Position>, to: Position, ok: bool)
    requires
        old(v)@.no_duplicates(),
        ok ==> !old(v)@.contains(to),
    ensures
        final(v)@ == (if ok { old(v)@.push(to) } else { old(v)@ }),
        final(v)@.no_duplicates(),
        forall|x: Position| #[trigger]
            final(v)@.contains(x) <==> (old(v)@.contains(x) || (ok && x == to)),
{
    if ok {
        v.push(to);
        proof {
            assert forall|x: Position| #[trigger] v@.contains(x) implies (old(v)@.contains(x) || x
                == to) by {
                let i = choose|i: int| 0 <= i < v@.len() && v@[i] == x;
                if i < old(v)@.len() {
                    assert(old(v)@[i] == x);
                }
            }
            assert forall|x: Position| old(v)@.contains(x) implies #[trigger] v@.contains(x) by {
                let i = choose|i: int| 0 <= i < old(v)@.len() && old(v)@[i] == x;
                assert(v@[i] == x);
            }
            assert(v@[old(v)@.len() as int] == to);
        }
    }
}

/// Pushes `to` when `ok` holds, where `to` comes after every square already listed in the
/// order of a piece of kind `k` on `from`.
fn push_step(
    v: &mut Vec<Position>,
    to: Position,
    ok: bool,
    Ghost(k): Ghost<XiangqiPiece>,
    Ghost(from): Ghost<Position>,
)
    requires
        old(v)@.no_duplicates(),
        in_step_order(old(v)@, k, from),
        forall|i: int| 0 <= i < old(v)@.len() ==> step_rank(k, from, #[trigger] old(v)@[i]) < step_rank(k, from, to),
    ensures
        final(v)@ == (if ok { old(v)@.push(to) } else { old(v)@ }),
        final(v)@.no_duplicates(),
        forall|x: Position| #[trigger]
            final(v)@.contains(x) <==> (old(v)@.contains(x) || (ok && x == to)),
        in_step_order(final(v)@, k, from),
        forall|i: int| 0 <= i < final(v)@.len() ==> step_rank(k, from, #[trigger] final(v)@[i]) <= step_rank(k, from, to),
{
    proof {
        assert forall|x: Position| old(v)@.contains(x) implies x != to by {
            let i = choose|i: int| 0 <= i < old(v)@.len() && old(v)@[i] == x;
            assert(step_rank(k, from, old(v)@[i]) < step_rank(k, from, to));
        }
    }
    push_if(v, to, ok);
}

/// The general's destinations from `from`.
pub fn general_moves(m: &PieceMap, from: Position, player: Player) -> (v: Vec<Position>)
    requires
        m.wf(),
        on_xiangqi_board(from),
    ensures
        forall|to: Position| v@.contains(to) <==> general_step(m@, from, to, player),
        v@.no_duplicates(),
        in_step_order(v@, XiangqiPiece::General, from),
{
    let mut v: Vec<Position> = Vec::new();
    let right = Position::new(from.row, from.col + 1);
    push_step(&mut v, right, in_palace_exec(right, player) && can_move_to(m, right, player), Ghost(XiangqiPiece::General), Ghost(from));
    if from.col >= 1 {
        let left = Position::new(from.row, from.col - 1);
        push_step(&mut v, left, in_palace_exec(left, player) && can_move_to(m, left, player), Ghost(XiangqiPiece::General), Ghost(from));
    }
    let down = Position::new(from.row + 1, from.col);
    push_step(&mut v, down, in_palace_exec(down, player) && can_move_to(m, down, player), Ghost(XiangqiPiece::General), Ghost(from));
    if from.row >= 1 {
        let up = Position::new(from.row - 1, from.col);
        push_step(&mut v, up, in_palace_exec(up, player) && can_move_to(m, up, player), Ghost(XiangqiPiece::General), Ghost(from));
    }
    v
}

/// The advisor's destinations from `from`.
pub fn advisor_moves(m: &PieceMap, from: Position, player: Player) -> (v: Vec<Position>)
    requires
        m.wf(),
        on_xiangqi_board(from),
    ensures
        forall|to: Position| v@.contains(to) <==> advisor_step(m@, from, to, player),
        v@.no_duplicates(),
        in_step_order(v@, XiangqiPiece::Advisor, from),
{
    let mut v: Vec<Position> = Vec::new();
    let a = Position::new(from.row + 1, from.col + 1);
    push_step(&mut v, a, in_palace_exec(a, player) && can_move_to(m, a, player), Ghost(XiangqiPiece::Advisor), Ghost(from));
    if from.col >= 1 {
        let b = Position::new(from.row + 1, from.col - 1);
        push_step(&mut v, b, in_palace_exec(b, player) && can_move_to(m, b, player), Ghost(XiangqiPiece::Advisor), Ghost(from));
    }
    if from.row >= 1 {
        let c = Position::new(from.row - 1, from.col + 1);
        push_step(&mut v, c, in_palace_exec(c, player) && can_move_to(m, c, player), Ghost(XiangqiPiece::Advisor), Ghost(from));
        if from.col >= 1 {
            let d = Position::new(from.row - 1, from.col - 1);
            push_step(&mut v, d, in_palace_exec(d, player) && can_move_to(m, d, player), Ghost(XiangqiPiece::Advisor), Ghost(from));
        }
    }
    v
}

/// The elephant's destinations from `from`.
pub fn elephant_moves(m: &PieceMap, from: Position, player: Player) -> (v: Vec<Position>)
    requires
        m.wf(),
        on_xiangqi_board(from),
    ensures
        forall|to: Position| v@.contains(to) <==> elephant_step(m@, from, to, player),
        v@.no_duplicates(),
        in_step_order(v@, XiangqiPiece::Elephant, from),
{
    let mut v: Vec<Position> = Vec::new();
    if from.row + 2 < 10 && from.col + 2 < 9 {
        let to = Position::new(from.row + 2, from.col + 2);
        let eye = Position::new(from.row + 1, from.col + 1);
        push_step(&mut v, to, own_side_exec(to, player) && !m.contains_key(&eye) && can_move_to(m, to, player), Ghost(XiangqiPiece::Elephant), Ghost(from));
    }
    if from.row + 2 < 10 && from.col >= 2 {
        let to = Position::new(from.row + 2, from.col - 2);
        let eye = Position::new(from.row + 1, from.col - 1);
        push_step(&mut v, to, own_side_exec(to, player) && !m.contains_key(&eye) && can_move_to(m, to, player), Ghost(XiangqiPiece::Elephant), Ghost(from));
    }
    if from.row >= 2 && from.col + 2 < 9 {
        let to = Position::new(from.row - 2, from.col + 2);
        let eye = Position::new(from.row - 1, from.col + 1);
        push_step(&mut v, to, own_side_exec(to, player) && !m.contains_key(&eye) && can_move_to(m, to, player), Ghost(XiangqiPiece::Elephant), Ghost(from));
    }
    if from.row >= 2 && from.col >= 2 {
        let to = Position::new(from.row - 2, from.col - 2);
        let eye = Position::new(from.row - 1, from.col - 1);
        push_step(&mut v, to, own_side_exec(to, player) && !m.contains_key(&eye) && can_move_to(m, to, player), Ghost(XiangqiPiece::Elephant), Ghost(from));
    }
    v
}

/// The horse's jumps two rows away from `from`.
#[verifier::spinoff_prover]
fn horse_row_jumps(m: &PieceMap, from: Position, player: Player) -> (v: Vec<Position>)
    requires
        m.wf(),
        on_xiangqi_board(from),
    ensures
        forall|to: Position| v@.contains(to) <==> (horse_step(m@, from, to, player) && dist(from.row, to.row) == 2),
        v@.no_duplicates(),
        in_step_order(v@, XiangqiPiece::Horse, from),
        forall|i: int| 0 <= i < v@.len() ==> step_rank(XiangqiPiece::Horse, from, #[trigger] v@[i]) <= 3,
{
    let mut v: Vec<Position> = Vec::new();
    let r = from.row;
    let c = from.col;
    if r + 2 < 10 {
        let leg = Position::new(r + 1, c);
        let free = !m.contains_key(&leg);
        if c + 1 < 9 {
            let to = Position::new(r + 2, c + 1);
            push_step(&mut v, to, free && can_move_to(m, to, player), Ghost(XiangqiPiece::Horse), Ghost(from));
        }
        if c >= 1 {
            let to = Position::new(r + 2, c - 1);
            push_step(&mut v, to, free && can_move_to(m, to, player), Ghost(XiangqiPiece::Horse), Ghost(from));
        }
    }
    if r >= 2 {
        let leg = Position::new(r - 1, c);
        let free = !m.contains_key(&leg);
        if c + 1 < 9 {
            let to = Position::new(r - 2, c + 1);
            push_step(&mut v, to, free && can_move_to(m, to, player), Ghost(XiangqiPiece::Horse), Ghost(from));
        }
        if c >= 1 {
            let to = Position::new(r - 2, c - 1);
            push_step(&mut v, to, free && can_move_to(m, to, player), Ghost(XiangqiPiece::Horse), Ghost(from));
        }
    }
    v
}

/// Adds the horse's jumps two columns away from `from` to `v`.
#[verifier::spinoff_prover]
fn horse_col_jumps(m: &PieceMap, from: Position, player: Player, v: &mut Vec<Position>)
    requires
        m.wf(),
        on_xiangqi_board(from),
        old(v)@.no_duplicates(),
        in_step_order(old(v)@, XiangqiPiece::Horse, from),
        forall|i: int| 0 <= i < old(v)@.len() ==> step_rank(XiangqiPiece::Horse, from, #[trigger] old(v)@[i]) <= 3,
    ensures
        forall|to: Position| #[trigger] final(v)@.contains(to) <==> (old(v)@.contains(to) || (horse_step(m@, from, to, player)
            && dist(from.col, to.col) == 2)),
        final(v)@.no_duplicates(),
        in_step_order(final(v)@, XiangqiPiece::Horse, from),
{
    let r = from.row;
    let c = from.col;
    if c + 2 < 9 {
        let leg = Position::new(r, c + 1);
        let free = !m.contains_key(&leg);
        if r + 1 < 10 {
            let to = Position::new(r + 1, c + 2);
            push_step(v, to, free && can_move_to(m, to, player), Ghost(XiangqiPiece::Horse), Ghost(from));
        }
        if r >= 1 {
            let to = Position::new(r - 1, c + 2);
            push_step(v, to, free && can_move_to(m, to, player), Ghost(XiangqiPiece::Horse), Ghost(from));
        }
    }
    if c >= 2 {
        let leg = Position::new(r, c - 1);
        let free = !m.contains_key(&leg);
        if r + 1 < 10 {
            let to = Position::new(r + 1, c - 2);
            push_step(v, to, free && can_move_to(m, to, player), Ghost(XiangqiPiece::Horse), Ghost(from));
        }
        if r >= 1 {
            let to = Position::new(r - 1, c - 2);
            push_step(v, to, free && can_move_to(m, to, player), Ghost(XiangqiPiece::Horse), Ghost(from));
        }
    }
}

/// The horse's destinations from `from`.
pub fn horse_moves(m: &PieceMap, from: Position, player: Player) -> (v: Vec<Position>)
    requires
        m.wf(),
        on_xiangqi_board(from),
    ensures
        forall|to: Position| v@.contains(to) <==> horse_step(m@, from, to, player),
        v@.no_duplicates(),
        in_step_order(v@, XiangqiPiece::Horse, from),
{
    let mut v = horse_row_jumps(m, from, player);
    horse_col_jumps(m, from, player, &mut v);
    v
}

/// The soldier's destinations from `from`.
pub fn soldier_moves(m: &PieceMap, from: Position, player: Player) -> (v: Vec<Position>)
    requires
        m.wf(),
        on_xiangqi_board(from),
    ensures
        forall|to: Position| v@.contains(to) <==> soldier_step(m@, from, to, player),
        v@.no_duplicates(),
        in_step_order(v@, XiangqiPiece::Soldier, from),
{
    let mut v: Vec<Position> = Vec::new();
    let crossed = match player {
        Player::Red => from.row <= 4,
        Player::Black => from.row >= 5,
    };
    match player {
        Player::Red => {
            if from.row >= 1 {
                let to = Position::new(from.row - 1, from.col);
                push_step(&mut v, to, can_move_to(m, to, player), Ghost(XiangqiPiece::Soldier), Ghost(from));
            }
        },
        Player::Black => {
            if from.row + 1 < 10 {
                let to = Position::new(from.row + 1, from.col);
                push_step(&mut v, to, can_move_to(m, to, player), Ghost(XiangqiPiece::Soldier), Ghost(from));
            }
        },
    }
    if crossed {
        if from.col > 0 {
            let to = Position::new(from.row, from.col - 1);
            push_step(&mut v, to, can_move_to(m, to, player), Ghost(XiangqiPiece::Soldier), Ghost(from));
        }
        if from.col < 8 {
            let to = Position::new(from.row, from.col + 1);
            push_step(&mut v, to, can_move_to(m, to, player), Ghost(XiangqiPiece::Soldier), Ghost(from));
        }
    }
    v
}

/// The four directions along a line.
#[derive(Clone, Copy, PartialEq, Eq, Structural)]
pub enum Dir {
    Up,
    Down,
    Left,
    Right,
}

/// `p` lies from `from` in direction `d`.
pub open spec fn in_dir(from: Position, p: Position, d: Dir) -> bool {
    match d {
        Dir::Up => p.col == from.col && p.row < from.row,
        Dir::Down => p.col == from.col && p.row > from.row,
        Dir::Left => p.row == from.row && p.col < from.col,
        Dir::Right => p.row == from.row && p.col > from.col,
    }
}

/// `p` lies in direction `d` from `from`, no further than `cur`.
pub open spec fn upto(from: Position, cur: Position, p: Position, d: Dir) -> bool {
    in_dir(from, p, d) && !in_dir(cur, p, d)
}

/// The square next to `p` in direction `d`, if it is on the board.
fn next_in_dir(p: Position, d: Dir) -> (r: Option<Position>)
    requires
        on_xiangqi_board(p),
    ensures
        match r {
            Some(n) => on_xiangqi_board(n) && in_dir(p, n, d) && dist(p.row, n.row) + dist(p.col, n.col) == 1
                && forall|q: Position| #[trigger] in_dir(p, q, d) ==> q == n || in_dir(n, q, d),
            None => forall|q: Position| #[trigger] in_dir(p, q, d) ==> !on_xiangqi_board(q),
        },
{
    match d {
        Dir::Up => if p.row == 0 {
            None
        } else {
            Some(Position::new(p.row - 1, p.col))
        },
        Dir::Down => if p.row >= 9 {
            None
        } else {
            Some(Position::new(p.row + 1, p.col))
        },
        Dir::Left => if p.col == 0 {
            None
        } else {
            Some(Position::new(p.row, p.col - 1))
        },
        Dir::Right => if p.col >= 8 {
            None
        } else {
            Some(Position::new(p.row, p.col + 1))
        },
    }
}

/// Squares strictly between `from` and a square `x` in direction `d` are those closer than `x`.
proof fn lemma_between_in_dir(from: Position, x: Position, p: Position, d: Dir)
    requires
        in_dir(from, x, d),
    ensures
        between_sq(from, x, p) <==> (in_dir(from, p, d) && in_dir(p, x, d)),
{
}

/// Where the squares in direction `d` start in the line order.
pub open spec fn dir_base(d: Dir) -> int {
    match d {
        Dir::Right => 0,
        Dir::Left => 16,
        Dir::Down => 32,
        Dir::Up => 48,
    }
}

/// `s` lists its squares in line order from `from`.
pub open spec fn line_sorted(s: Seq<Position>, from: Position) -> bool {
    forall|i: int, j: int| 0 <= i < j < s.len() ==> line_rank(from, #[trigger] s[i]) < line_rank(from, #[trigger] s[j])
}

/// A square in direction `d` from `from` comes after the start of that direction and
/// before the next one.
proof fn lemma_line_rank_in_dir(from: Position, x: Position, d: Dir)
    requires
        in_dir(from, x, d),
        on_xiangqi_board(from),
        on_xiangqi_board(x),
    ensures
        dir_base(d) < line_rank(from, x) < dir_base(d) + 16,
{
}

/// Pushing a square that comes after every listed one keeps the line order.
proof fn lemma_push_line_sorted(s: Seq<Position>, from: Position, to: Position)
    requires
        line_sorted(s, from),
        forall|i: int| 0 <= i < s.len() ==> line_rank(from, #[trigger] s[i]) < line_rank(from, to),
    ensures
        line_sorted(s.push(to), from),
{
    assert forall|i: int, j: int| 0 <= i < j < s.push(to).len() implies line_rank(from, #[trigger] s.push(to)[i])
        < line_rank(from, #[trigger] s.push(to)[j]) by {
        assert(s.push(to)[i] == s[i]);
        if j < s.len() {
            assert(s.push(to)[j] == s[j]);
        }
    }
}

/// Adds to `v` the free squares in direction `d` up to the first piece, and
/// returns the square of that piece, if there is one on the board.
fn clear_run(m: &PieceMap, from: Position, d: Dir, v: &mut Vec<Position>) -> (r: Option<Position>)
    requires
        m.wf(),
        on_xiangqi_board(from),
        old(v)@.no_duplicates(),
        forall|x: Position| #[trigger] old(v)@.contains(x) ==> !in_dir(from, x, d),
        line_sorted(old(v)@, from),
        forall|i: int| 0 <= i < old(v)@.len() ==> line_rank(from, #[trigger] old(v)@[i]) <= dir_base(d),
    ensures
        final(v)@.no_duplicates(),
        line_sorted(final(v)@, from),
        forall|i: int| 0 <= i < final(v)@.len() ==> line_rank(from, #[trigger] final(v)@[i]) < dir_base(d) + 16,
        r matches Some(b) ==> forall|i: int| 0 <= i < final(v)@.len() ==> line_rank(from, #[trigger] final(v)@[i])
            < line_rank(from, b),
        match r {
            None => {
                &&& forall|p: Position| #[trigger] in_dir(from, p, d) && on_xiangqi_board(p) ==> !m@.contains_key(p)
                &&& forall|x: Position| #[trigger] final(v)@.contains(x) <==> (old(v)@.contains(x)
                    || (in_dir(from, x, d) && on_xiangqi_board(x)))
            },
            Some(b) => {
                &&& m@.contains_key(b)
                &&& on_xiangqi_board(b)
                &&& in_dir(from, b, d)
                &&& forall|p: Position| #[trigger] between_sq(from, b, p) ==> !m@.contains_key(p)
                &&& forall|x: Position| #[trigger] final(v)@.contains(x) <==> (old(v)@.contains(x)
                    || between_sq(from, b, x))
            },
        },
{
    let ghost v0 = v@;
    let mut cur = from;
    loop
        invariant
            v0 == old(v)@,
            m.wf(),
            on_xiangqi_board(from),
            on_xiangqi_board(cur),
            cur == from || in_dir(from, cur, d),
            forall|p: Position| #[trigger] upto(from, cur, p, d) ==> !m@.contains_key(p),
            v@.no_duplicates(),
            forall|x: Position| #[trigger] v0.contains(x) ==> !in_dir(from, x, d),
            forall|x: Position| #[trigger] v@.contains(x) <==> (v0.contains(x) || upto(from, cur, x, d)),
            line_sorted(v@, from),
            forall|i: int| 0 <= i < v@.len() ==> line_rank(from, #[trigger] v@[i]) <= (if cur == from {
                dir_base(d)
            } else {
                line_rank(from, cur)
            }),
            cur != from ==> dir_base(d) < line_rank(from, cur) < dir_base(d) + 16,
        decreases (if cur == from { 10int } else { 0 }) + match d {
            Dir::Up => cur.row as int,
            Dir::Down => 10 - cur.row,
            Dir::Left => cur.col as int,
            Dir::Right => 10 - cur.col,
        },
    {
        match next_in_dir(cur, d) {
            None => {
                proof {
                    assert forall|p: Position| #[trigger] in_dir(from, p, d) && on_xiangqi_board(p) implies !m@.contains_key(p) by {
                        assert(upto(from, cur, p, d));
                    }
                    assert forall|x: Position| #[trigger] v@.contains(x) <==> (v0.contains(x)
                        || (in_dir(from, x, d) && on_xiangqi_board(x))) by {
                        if in_dir(from, x, d) && on_xiangqi_board(x) {
                            assert(upto(from, cur, x, d));
                        }
                    }
                }
                return None;
            },
            Some(n) => {
                if m.contains_key(&n) {
                    proof {
                        lemma_line_rank_in_dir(from, n, d);
                        assert forall|p: Position| #[trigger] between_sq(from, n, p) implies !m@.contains_key(p) by {
                            lemma_between_in_dir(from, n, p, d);
                            assert(upto(from, cur, p, d));
                        }
                        assert forall|x: Position| #[trigger] v@.contains(x) <==> (v0.contains(x)
                            || between_sq(from, n, x)) by {
                            lemma_between_in_dir(from, n, x, d);
                        }
                    }
                    return Some(n);
                }
                proof {
                    assert forall|x: Position| #[trigger] v@.contains(x) implies x != n by {
                        assert(!in_dir(cur, x, d) || v0.contains(x));
                    }
                }
                proof {
                    lemma_line_rank_in_dir(from, n, d);
                    lemma_push_line_sorted(v@, from, n);
                }
                push_if(v, n, true);
                proof {
                    assert forall|x: Position| #[trigger] v@.contains(x) <==> (v0.contains(x) || upto(from, n, x, d)) by {
                        if upto(from, n, x, d) && x != n {
                            assert(upto(from, cur, x, d));
                        }
                    }
                    assert forall|p: Position| #[trigger] upto(from, n, p, d) implies !m@.contains_key(p) by {
                        if p != n {
                            assert(upto(from, cur, p, d));
                        }
                    }
                }
                cur = n;
            },
        }
    }
}

/// Adds the chariot's destinations in direction `d` to `v`.
fn chariot_ray(m: &PieceMap, from: Position, d: Dir, player: Player, v: &mut Vec<Position>)
    requires
        m.wf(),
        on_xiangqi_board(from),
        old(v)@.no_duplicates(),
        forall|x: Position| #[trigger] old(v)@.contains(x) ==> !in_dir(from, x, d),
        line_sorted(old(v)@, from),
        forall|i: int| 0 <= i < old(v)@.len() ==> line_rank(from, #[trigger] old(v)@[i]) <= dir_base(d),
    ensures
        final(v)@.no_duplicates(),
        line_sorted(final(v)@, from),
        forall|i: int| 0 <= i < final(v)@.len() ==> line_rank(from, #[trigger] final(v)@[i]) < dir_base(d) + 16,
        forall|x: Position| #[trigger]
            final(v)@.contains(x) <==> (old(v)@.contains(x) || (in_dir(from, x, d)
                && chariot_step(m@, from, x, player))),
{
    let ghost v0 = v@;
    match clear_run(m, from, d, v) {
        None => {
            proof {
                assert forall|x: Position| #[trigger] v@.contains(x) <==> (v0.contains(x) || (in_dir(from, x, d)
                    && chariot_step(m@, from, x, player))) by {
                    if in_dir(from, x, d) && on_xiangqi_board(x) {
                        assert forall|p: Position| #[trigger] between_sq(from, x, p) implies !m@.contains_key(p) by {
                            lemma_between_in_dir(from, x, p, d);
                        }
                    }
                }
            }
        },
        Some(b) => {
            let enemy = can_move_to(m, b, player);
            proof {
                assert forall|x: Position| #[trigger] v@.contains(x) implies x != b by {
                    lemma_between_in_dir(from, b, x, d);
                }
            }
            let ghost v1 = v@;
            proof {
                lemma_line_rank_in_dir(from, b, d);
                lemma_push_line_sorted(v@, from, b);
            }
            push_if(v, b, enemy);
            proof {
                assert forall|x: Position| #[trigger] v@.contains(x) <==> (v0.contains(x) || (in_dir(from, x, d)
                    && chariot_step(m@, from, x, player))) by {
                    if in_dir(from, x, d) {
                        lemma_between_in_dir(from, b, x, d);
                        if between_sq(from, b, x) || x == b {
                            assert forall|p: Position| #[trigger] between_sq(from, x, p) implies !m@.contains_key(p) by {
                                lemma_between_in_dir(from, x, p, d);
                                lemma_between_in_dir(from, b, p, d);
                            }
                        } else {
                            assert(in_dir(b, x, d));
                            lemma_between_in_dir(from, x, b, d);
                            assert(between_sq(from, x, b));
                        }
                    }
                }
            }
        },
    }
}

/// Adds the cannon's destinations in direction `d` to `v`.
fn cannon_ray(m: &PieceMap, from: Position, d: Dir, player: Player, v: &mut Vec<Position>)
    requires
        m.wf(),
        on_xiangqi_board(from),
        old(v)@.no_duplicates(),
        forall|x: Position| #[trigger] old(v)@.contains(x) ==> !in_dir(from, x, d),
        line_sorted(old(v)@, from),
        forall|i: int| 0 <= i < old(v)@.len() ==> line_rank(from, #[trigger] old(v)@[i]) <= dir_base(d),
    ensures
        final(v)@.no_duplicates(),
        line_sorted(final(v)@, from),
        forall|i: int| 0 <= i < final(v)@.len() ==> line_rank(from, #[trigger] final(v)@[i]) < dir_base(d) + 16,
        forall|x: Position| #[trigger]
            final(v)@.contains(x) <==> (old(v)@.contains(x) || (in_dir(from, x, d)
                && cannon_step(m@, from, x, player))),
{
    let ghost v0 = v@;
    match clear_run(m, from, d, v) {
        None => {
            proof {
                assert forall|x: Position| #[trigger] v@.contains(x) <==> (v0.contains(x) || (in_dir(from, x, d)
                    && cannon_step(m@, from, x, player))) by {
                    if in_dir(from, x, d) && on_xiangqi_board(x) {
                        assert forall|p: Position| #[trigger] between_sq(from, x, p) implies !m@.contains_key(p) by {
                            lemma_between_in_dir(from, x, p, d);
                        }
                    }
                }
            }
        },
        Some(s) => {
            let ghost v1 = v@;
            proof {
                lemma_line_rank_in_dir(from, s, d);
            }
            let mut cur = s;
            loop
                invariant_except_break
                    m.wf(),
                    on_xiangqi_board(from),
                    on_xiangqi_board(cur),
                    m@.contains_key(s),
                    on_xiangqi_board(s),
                    in_dir(from, s, d),
                    cur == s || in_dir(s, cur, d),
                    forall|p: Position| #[trigger] between_sq(from, s, p) ==> !m@.contains_key(p),
                    forall|p: Position| #[trigger] upto(s, cur, p, d) ==> !m@.contains_key(p),
                    v@ == v1,
                    v1.no_duplicates(),
                    line_sorted(v1, from),
                    forall|i: int| 0 <= i < v1.len() ==> line_rank(from, #[trigger] v1[i]) < line_rank(from, s),
                    dir_base(d) < line_rank(from, s) < dir_base(d) + 16,
                    forall|x: Position| #[trigger] v1.contains(x) <==> (v0.contains(x) || between_sq(from, s, x)),
                    forall|x: Position| #[trigger] v0.contains(x) ==> !in_dir(from, x, d),
                ensures
                    v@.no_duplicates(),
                    line_sorted(v@, from),
                    forall|i: int| 0 <= i < v@.len() ==> line_rank(from, #[trigger] v@[i]) < dir_base(d) + 16,
                    forall|x: Position| #[trigger]
                        v@.contains(x) <==> (v0.contains(x) || (in_dir(from, x, d)
                            && cannon_step(m@, from, x, player))),
                decreases (if cur == s { 10int } else { 0 }) + match d {
                    Dir::Up => cur.row as int,
                    Dir::Down => 10 - cur.row,
                    Dir::Left => cur.col as int,
                    Dir::Right => 10 - cur.col,
                },
            {
                match next_in_dir(cur, d) {
                    None => {
                        proof {
                            assert forall|x: Position| #[trigger] v@.contains(x) <==> (v0.contains(x) || (in_dir(from, x, d)
                                && cannon_step(m@, from, x, player))) by {
                                if in_dir(from, x, d) {
                                    lemma_between_in_dir(from, s, x, d);
                                    if between_sq(from, s, x) {
                                        assert forall|p: Position| #[trigger] between_sq(from, x, p) implies !m@.contains_key(p) by {
                                            lemma_between_in_dir(from, x, p, d);
                                            lemma_between_in_dir(from, s, p, d);
                                        }
                                    } else if x == s {
                                        assert(!one_screen(m@, from, x)) by {
                                            if one_screen(m@, from, x) {
                                                let w = choose|w: Position| between_sq(from, x, w) && m@.contains_key(w) && forall|p: Position|
                                                    #[trigger] between_sq(from, x, p) && m@.contains_key(p) ==> p == w;
                                            }
                                        }
                                    } else {
                                        assert(in_dir(s, x, d));
                                        lemma_between_in_dir(from, x, s, d);
                                        assert(between_sq(from, x, s));
                                        if on_xiangqi_board(x) {
                                            assert(upto(s, cur, x, d));
                                        }
                                    }
                                }
                            }
                        }
                        break;
                    },
                    Some(n) => {
                        if m.contains_key(&n) {
                            let enemy = can_move_to(m, n, player);
                            proof {
                                assert forall|x: Position| #[trigger] v@.contains(x) implies x != n by {
                                    lemma_between_in_dir(from, s, x, d);
                                }
                            }
                            proof {
                                lemma_line_rank_in_dir(from, n, d);
                                lemma_push_line_sorted(v@, from, n);
                            }
                            push_if(v, n, enemy);
                            proof {
                                assert forall|x: Position| #[trigger] v@.contains(x) <==> (v0.contains(x) || (in_dir(from, x, d)
                                    && cannon_step(m@, from, x, player))) by {
                                    if in_dir(from, x, d) {
                                        lemma_between_in_dir(from, s, x, d);
                                        if between_sq(from, s, x) {
                                            assert forall|p: Position| #[trigger] between_sq(from, x, p) implies !m@.contains_key(p) by {
                                                lemma_between_in_dir(from, x, p, d);
                                                lemma_between_in_dir(from, s, p, d);
                                            }
                                        } else if x == s {
                                            assert(!one_screen(m@, from, x)) by {
                                                if one_screen(m@, from, x) {
                                                    let w = choose|w: Position| between_sq(from, x, w) && m@.contains_key(w) && forall|p: Position|
                                                        #[trigger] between_sq(from, x, p) && m@.contains_key(p) ==> p == w;
                                                }
                                            }
                                        } else {
                                            assert(in_dir(s, x, d));
                                            lemma_between_in_dir(from, x, s, d);
                                            assert(between_sq(from, x, s));
                                            if x == n {
                                                assert forall|p: Position| #[trigger] between_sq(from, x, p) && m@.contains_key(p) implies p == s by {
                                                    lemma_between_in_dir(from, x, p, d);
                                                    lemma_between_in_dir(from, s, p, d);
                                                    if p != s && !between_sq(from, s, p) {
                                                        assert(in_dir(s, p, d));
                                                        assert(upto(s, cur, p, d));
                                                    }
                                                }
                                                assert(one_screen(m@, from, x));
                                            } else if upto(s, cur, x, d) {
                                            } else {
                                                assert(in_dir(n, x, d));
                                                lemma_between_in_dir(from, x, n, d);
                                                assert(between_sq(from, x, n));
                                                assert(!one_screen(m@, from, x)) by {
                                                    if one_screen(m@, from, x) {
                                                        let w = choose|w: Position| between_sq(from, x, w) && m@.contains_key(w) && forall|p: Position|
                                                            #[trigger] between_sq(from, x, p) && m@.contains_key(p) ==> p == w;
                                                        assert(s == w);
                                                        assert(n == w);
                                                    }
                                                }
                                            }
                                        }
                                    }
                                }
                            }
                            break;
                        }
                        proof {
                            assert forall|p: Position| #[trigger] upto(s, n, p, d) implies !m@.contains_key(p) by {
                                if p != n {
                                    assert(upto(s, cur, p, d));
                                }
                            }
                        }
                        cur = n;
                    },
                }
            }
        },
    }
}

/// The chariot's destinations from `from`.
pub fn chariot_moves(m: &PieceMap, from: Position, player: Player) -> (v: Vec<Position>)
    requires
        m.wf(),
        on_xiangqi_board(from),
    ensures
        forall|to: Position| v@.contains(to) <==> chariot_step(m@, from, to, player),
        v@.no_duplicates(),
        in_step_order(v@, XiangqiPiece::Chariot, from),
{
    let mut v: Vec<Position> = Vec::new();
    chariot_ray(m, from, Dir::Right, player, &mut v);
    chariot_ray(m, from, Dir::Left, player, &mut v);
    chariot_ray(m, from, Dir::Down, player, &mut v);
    chariot_ray(m, from, Dir::Up, player, &mut v);
    proof {
        assert forall|i: int, j: int| 0 <= i < j < v@.len() implies step_rank(XiangqiPiece::Chariot, from, #[trigger] v@[i])
            < step_rank(XiangqiPiece::Chariot, from, #[trigger] v@[j]) by {
            assert(line_rank(from, v@[i]) < line_rank(from, v@[j]));
        }
    }
    v
}

/// The cannon's destinations from `from`.
pub fn cannon_moves(m: &PieceMap, from: Position, player: Player) -> (v: Vec<Position>)
    requires
        m.wf(),
        on_xiangqi_board(from),
    ensures
        forall|to: Position| v@.contains(to) <==> cannon_step(m@, from, to, player),
        v@.no_duplicates(),
        in_step_order(v@, XiangqiPiece::Cannon, from),
{
    let mut v: Vec<Position> = Vec::new();
    cannon_ray(m, from, Dir::Right, player, &mut v);
    cannon_ray(m, from, Dir::Left, player, &mut v);
    cannon_ray(m, from, Dir::Down, player, &mut v);
    cannon_ray(m, from, Dir::Up, player, &mut v);
    proof {
        assert forall|i: int, j: int| 0 <= i < j < v@.len() implies step_rank(XiangqiPiece::Cannon, from, #[trigger] v@[i])
            < step_rank(XiangqiPiece::Cannon, from, #[trigger] v@[j]) by {
            assert(line_rank(from, v@[i]) < line_rank(from, v@[j]));
        }
    }
    v
}

/// The destinations of `piece`, standing on `from`, by its own pattern.
pub fn piece_moves(m: &PieceMap, from: Position, piece: Piece) -> (v: Vec<Position>)
    requires
        m.wf(),
        on_xiangqi_board(from),
    ensures
        forall|to: Position| #[trigger] v@.contains(to) <==> match piece.piece_type {
            PieceType::Xiangqi(k) => kind_step(m@, k, from, to, piece.player),
            PieceType::Junqi(_) => false,
        },
        v@.no_duplicates(),
        piece.piece_type matches PieceType::Xiangqi(k) ==> in_step_order(v@, k, from),
{
    match piece.piece_type {
        PieceType::Xiangqi(k) => match k {
            XiangqiPiece::General => general_moves(m, from, piece.player),
            XiangqiPiece::Advisor => advisor_moves(m, from, piece.player),
            XiangqiPiece::Elephant => elephant_moves(m, from, piece.player),
            XiangqiPiece::Horse => horse_moves(m, from, piece.player),
            XiangqiPiece::Chariot => chariot_moves(m, from, piece.player),
            XiangqiPiece::Cannon => cannon_moves(m, from, piece.player),
            XiangqiPiece::Soldier => soldier_moves(m, from, piece.player),
        },
        PieceType::Junqi(_) => Vec::new(),
    }
}

/// The direction from `from` to `to`, which lie on one line.
fn dir_to(from: Position, to: Position) -> (d: Dir)
    requires
        straight(from, to),
        from != to,
    ensures
        in_dir(from, to, d),
{
    if from.col == to.col {
        if to.row < from.row {
            Dir::Up
        } else {
            Dir::Down
        }
    } else {
        if to.col < from.col {
            Dir::Left
        } else {
            Dir::Right
        }
    }
}

/// How many pieces stand strictly between `from` and `to` (counting no further than two).
fn pieces_between(m: &PieceMap, from: Position, to: Position) -> (c: u8)
    requires
        m.wf(),
        on_xiangqi_board(from),
        on_xiangqi_board(to),
        straight(from, to),
    ensures
        (c == 0) == path_clear(m@, from, to),
        (c == 1) == one_screen(m@, from, to),
{
    if from == to {
        return 0;
    }
    let d = dir_to(from, to);
    let mut cur = from;
    let mut count: u8 = 0;
    let ghost mut w1 = from;
    let ghost mut w2 = from;
    loop
        invariant
            m.wf(),
            on_xiangqi_board(from),
            on_xiangqi_board(to),
            in_dir(from, to, d),
            on_xiangqi_board(cur),
            cur == from || (in_dir(from, cur, d) && in_dir(cur, to, d)),
            count <= 2,
            count == 0 ==> forall|p: Position| #[trigger] upto(from, cur, p, d) ==> !m@.contains_key(p),
            count >= 1 ==> upto(from, cur, w1, d) && m@.contains_key(w1),
            count == 1 ==> forall|p: Position| #[trigger] upto(from, cur, p, d) && m@.contains_key(p) ==> p == w1,
            count == 2 ==> upto(from, cur, w2, d) && m@.contains_key(w2) && w1 != w2,
        decreases (if cur == from { 10int } else { 0 }) + match d {
            Dir::Up => cur.row as int,
            Dir::Down => 10 - cur.row,
            Dir::Left => cur.col as int,
            Dir::Right => 10 - cur.col,
        },
    {
        let n = match next_in_dir(cur, d) {
            Some(n) => n,
            None => {
                proof {
                    assert(in_dir(cur, to, d) || cur == from);
                }
                return 0;
            },
        };
        if n == to {
            proof {
                assert forall|p: Position| #[trigger] between_sq(from, to, p) <==> upto(from, cur, p, d) by {
                    lemma_between_in_dir(from, to, p, d);
                }
                if count == 1 {
                    assert(between_sq(from, to, w1));
                }
                if count == 2 {
                    assert(between_sq(from, to, w1));
                    assert(between_sq(from, to, w2));
                    assert(!one_screen(m@, from, to)) by {
                        if one_screen(m@, from, to) {
                            let w = choose|w: Position| between_sq(from, to, w) && m@.contains_key(w) && forall|p: Position|
                                #[trigger] between_sq(from, to, p) && m@.contains_key(p) ==> p == w;
                            assert(w1 == w);
                            assert(w2 == w);
                        }
                    }
                }
            }
            return count;
        }
        if m.contains_key(&n) {
            if count == 0 {
                proof {
                    w1 = n;
                }
                count = 1;
            } else if count == 1 {
                proof {
                    w2 = n;
                }
                count = 2;
            }
        }
        proof {
            assert(in_dir(n, to, d));
            assert forall|p: Position| #[trigger] upto(from, n, p, d) implies (p == n || upto(from, cur, p, d)) by {
            }
            if count == 0 {
                assert forall|p: Position| #[trigger] upto(from, n, p, d) implies !m@.contains_key(p) by {
                    if p != n {
                        assert(upto(from, cur, p, d));
                    }
                }
            }
            if count == 1 {
                assert forall|p: Position| #[trigger] upto(from, n, p, d) && m@.contains_key(p) implies p == w1 by {
                    if p != n {
                        assert(upto(from, cur, p, d));
                    }
                }
            }
        }
        cur = n;
    }
}

fn dist_exec(a: u8, b: u8) -> (r: u8)
    ensures
        r == dist(a, b),
{
    if a >= b {
        a - b
    } else {
        b - a
    }
}

/// Whether `piece`, standing on `from`, could move to `to` by its pattern.
pub fn attacks_exec(m: &PieceMap, piece: Piece, from: Position, to: Position) -> (b: bool)
    requires
        m.wf(),
        on_xiangqi_board(from),
    ensures
        b == attacks(m@, piece, from, to),
{
    if !to.is_valid_xiangqi() {
        return false;
    }
    if !can_move_to(m, to, piece.player) {
        return false;
    }
    let pl = piece.player;
    let dr = dist_exec(from.row, to.row);
    let dc = dist_exec(from.col, to.col);
    match piece.piece_type {
        PieceType::Xiangqi(k) => match k {
            XiangqiPiece::General => in_palace_exec(to, pl) && ((dr == 1 && dc == 0) || (dr == 0
                && dc == 1)),
            XiangqiPiece::Advisor => in_palace_exec(to, pl) && dr == 1 && dc == 1,
            XiangqiPiece::Elephant => {
                if !own_side_exec(to, pl) {
                    return false;
                }
                if dr != 2 || dc != 2 {
                    return false;
                }
                let eye = Position::new((from.row + to.row) / 2, (from.col + to.col) / 2);
                !m.contains_key(&eye)
            },
            XiangqiPiece::Horse => {
                if !((dr == 2 && dc == 1) || (dr == 1 && dc == 2)) {
                    return false;
                }
                let leg = if dr == 2 {
                    let r = if to.row > from.row {
                        from.row + 1
                    } else {
                        from.row - 1
                    };
                    Position::new(r, from.col)
                } else {
                    let c = if to.col > from.col {
                        from.col + 1
                    } else {
                        from.col - 1
                    };
                    Position::new(from.row, c)
                };
                !m.contains_key(&leg)
            },
            XiangqiPiece::Chariot => {
                if from.row != to.row && from.col != to.col {
                    return false;
                }
                pieces_between(m, from, to) == 0
            },
            XiangqiPiece::Cannon => {
                if from.row != to.row && from.col != to.col {
                    return false;
                }
                let between = pieces_between(m, from, to);
                if m.contains_key(&to) {
                    between == 1
                } else {
                    between == 0
                }
            },
            XiangqiPiece::Soldier => {
                if dr + dc != 1 {
                    return false;
                }
                let crossed = match pl {
                    Player::Red => from.row <= 4,
                    Player::Black => from.row >= 5,
                };
                match pl {
                    Player::Red => {
                        if to.row > from.row {
                            return false;
                        }
                        if to.row == from.row && !crossed {
                            return false;
                        }
                        true
                    },
                    Player::Black => {
                        if to.row < from.row {
                            return false;
                        }
                        if to.row == from.row && !crossed {
                            return false;
                        }
                        true
                    },
                }
            },
        },
        PieceType::Junqi(_) => false,
    }
}

/// Where the general of `player` stands, if it is on the board.
pub fn find_general(m: &PieceMap, player: Player) -> (r: Option<Position>)
    requires
        m.wf(),
    ensures
        match r {
            Some(g) => m@.contains_key(g) && is_general(m@[g], player),
            None => forall|g: Position| #[trigger] m@.contains_key(g) ==> !is_general(m@[g], player),
        },
{
    proof {
        m.lemma_seq();
    }
    let n = m.len();
    let mut i: usize = 0;
    while i < n
        invariant
            m.wf(),
            n == m.seq().len(),
            i <= n,
            forall|j: int| 0 <= j < i ==> !is_general(#[trigger] m.seq()[j].1, player),
        decreases n - i,
    {
        let (pos, pc) = m.entry_at(i);
        match pc.piece_type {
            PieceType::Xiangqi(XiangqiPiece::General) => {
                if pc.player == player {
                    proof {
                        m.lemma_seq();
                        assert(m@.contains_key(m.seq()[i as int].0));
                    }
                    return Some(pos);
                }
            },
            _ => {},
        }
        i = i + 1;
    }
    proof {
        m.lemma_seq();
        assert forall|g: Position| #[trigger] m@.contains_key(g) implies !is_general(m@[g], player) by {
            let j = choose|j: int| 0 <= j < m.seq().len() && m.seq()[j].0 == g;
            assert(m@.contains_key(m.seq()[j].0));
        }
    }
    None
}

/// Whether no piece stands strictly between `a` and `b`, on one column.
fn column_clear(m: &PieceMap, a: Position, b: Position) -> (c: bool)
    requires
        m.wf(),
        a.col == b.col,
    ensures
        c == path_clear(m@, a, b),
{
    let (lo, hi) = if a.row <= b.row {
        (a.row, b.row)
    } else {
        (b.row, a.row)
    };
    if hi - lo <= 1 {
        proof {
            assert forall|p: Position| #[trigger] between_sq(a, b, p) implies !m@.contains_key(p) by {}
        }
        return true;
    }
    let mut row: u8 = lo + 1;
    while row < hi
        invariant
            m.wf(),
            a.col == b.col,
            lo < row <= hi,
            lo == (if a.row <= b.row { a.row } else { b.row }),
            hi == (if a.row <= b.row { b.row } else { a.row }),
            forall|r: u8| lo < r < row ==> !#[trigger] m@.contains_key(Position { row: r, col: a.col }),
        decreases hi - row,
    {
        if m.contains_key(&Position::new(row, a.col)) {
            proof {
                let p = Position { row: row, col: a.col };
                assert(between_sq(a, b, p));
            }
            return false;
        }
        row = row + 1;
    }
    proof {
        assert forall|p: Position| #[trigger] between_sq(a, b, p) implies !m@.contains_key(p) by {
            if p.col == a.col && lo < p.row < hi {
                assert(p == Position { row: p.row, col: a.col });
                assert(!m@.contains_key(Position { row: p.row, col: a.col }));
            }
        }
    }
    true
}

/// Whether the two generals face each other on an open column.
pub fn generals_facing(m: &PieceMap) -> (b: bool)
    requires
        m.wf(),
        one_general_each(m@),
    ensures
        b == generals_face(m@),
{
    let red = find_general(m, Player::Red);
    let black = find_general(m, Player::Black);
    match (red, black) {
        (Some(r), Some(bk)) => {
            if r.col != bk.col {
                proof {
                    assert(!generals_face(m@));
                }
                return false;
            }
            let clear = column_clear(m, r, bk);
            proof {
                if generals_face(m@) {
                    let (r2, b2) = choose|r2: Position, b2: Position| m@.contains_key(r2) && is_general(m@[r2], Player::Red) && m@.contains_key(b2) && is_general(
                        m@[b2], Player::Black) && r2.col == b2.col && path_clear(m@, r2, b2);
                    assert(r2 == r);
                    assert(b2 == bk);
                }
            }
            clear
        },
        _ => false,
    }
}

/// Whether some piece of the other side attacks the general of `player`.
pub fn check_exec(m: &PieceMap, player: Player) -> (b: bool)
    requires
        m.wf(),
        board_ok(m@),
    ensures
        b == in_check(m@, player),
{
    let g = match find_general(m, player) {
        None => return false,
        Some(g) => g,
    };
    let opp = player.opponent();
    proof {
        m.lemma_seq();
    }
    let n = m.len();
    let mut i: usize = 0;
    while i < n
        invariant
            m.wf(),
            board_ok(m@),
            n == m.seq().len(),
            i <= n,
            opp == opponent_of(player),
            m@.contains_key(g),
            is_general(m@[g], player),
            forall|j: int| 0 <= j < i ==> !(#[trigger] m.seq()[j].1.player == opp && attacks(m@, m.seq()[j].1, m.seq()[j].0, g)),
        decreases n - i,
    {
        let (pos, pc) = m.entry_at(i);
        proof {
            m.lemma_seq();
            assert(m@.contains_key(pos));
        }
        if pc.player == opp && attacks_exec(m, pc, pos, g) {
            return true;
        }
        i = i + 1;
    }
    proof {
        m.lemma_seq();
        if in_check(m@, player) {
            let (g2, q) = choose|g2: Position, q: Position| m@.contains_key(g2) && is_general(m@[g2], player) && m@.contains_key(q) && m@[q].player
                == opponent_of(player) && attacks(m@, m@[q], q, g2);
            assert(g2 == g);
            let j = choose|j: int| 0 <= j < m.seq().len() && m.seq()[j].0 == q;
            assert(m@.contains_key(m.seq()[j].0));
        }
    }
    false
}

/// The board after the piece on `from` goes to `to`.
pub fn after_map(m: &PieceMap, from: Position, to: Position) -> (r: PieceMap)
    requires
        m.wf(),
    ensures
        r.wf(),
        r@ == after_move(m@, from, to),
{
    let mut t = m.duplicate();
    match t.remove(&from) {
        Some(pc) => {
            t.insert(to, pc);
        },
        None => {
            assert(t@ =~= m@);
        },
    }
    t
}

/// Whether moving from `from` to `to` keeps the generals apart and `player` out of check.
pub fn safe_after_exec(m: &PieceMap, from: Position, to: Position, player: Player) -> (b: bool)
    requires
        m.wf(),
        board_ok(m@),
        on_xiangqi_board(to),
    ensures
        b == safe_after(m@, from, to, player),
{
    let t = after_map(m, from, to);
    proof {
        lemma_after_move_ok(m@, from, to);
    }
    !generals_facing(&t) && !check_exec(&t, player)
}

/// The legal destinations of the piece on `from` when `current` is to move.
pub fn legal_moves_from(m: &PieceMap, current: Player, from: Position) -> (v: Vec<Position>)
    requires
        m.wf(),
        board_ok(m@),
    ensures
        forall|to: Position| v@.contains(to) <==> legal_move(m@, current, from, to),
        v@.no_duplicates(),
        forall|k: XiangqiPiece| m@.contains_key(from) && m@[from].piece_type == PieceType::Xiangqi(k)
            ==> #[trigger] in_step_order(v@, k, from),
{
    let piece = match m.get(&from) {
        None => return Vec::new(),
        Some(p) => *p,
    };
    if piece.player != current {
        return Vec::new();
    }
    let cands = piece_moves(m, from, piece);
    let ghost k = match piece.piece_type {
        PieceType::Xiangqi(k) => k,
        PieceType::Junqi(_) => XiangqiPiece::General,
    };
    proof {
        if cands@.len() > 0 {
            assert(cands@.contains(cands@[0]));
        }
    }
    let mut v: Vec<Position> = Vec::new();
    let mut i: usize = 0;
    while i < cands.len()
        invariant
            in_step_order(cands@, k, from),
            in_step_order(v@, k, from),
            piece.piece_type matches PieceType::Xiangqi(q) ==> q == k,
            m.wf(),
            board_ok(m@),
            m@.contains_key(from),
            m@[from] == piece,
            piece.player == current,
            on_xiangqi_board(from),
            i <= cands@.len(),
            cands@.no_duplicates(),
            forall|to: Position| #[trigger] cands@.contains(to) <==> pseudo_move(m@, from, to),
            v@.no_duplicates(),
            forall|to: Position| #[trigger] v@.contains(to) <==> (exists|j: int| 0 <= j < i && cands@[j] == to) && safe_after(m@, from, to, current),
        decreases cands@.len() - i,
    {
        let to = cands[i];
        assert(cands@.contains(to));
        let ok = safe_after_exec(m, from, to, current);
        proof {
            assert forall|a: int| 0 <= a < v@.len() implies step_rank(k, from, #[trigger] v@[a]) < step_rank(k, from, to) by {
                assert(v@.contains(v@[a]));
                let j = choose|j: int| 0 <= j < i && cands@[j] == v@[a];
                assert(step_rank(k, from, cands@[j]) < step_rank(k, from, cands@[i as int]));
            }
        }
        push_step(&mut v, to, ok, Ghost(k), Ghost(from));
        proof {
            assert forall|x: Position| #[trigger] v@.contains(x) <==> (exists|j: int| 0 <= j < i + 1 && cands@[j] == x) && safe_after(m@, from, x, current) by {
                if (exists|j: int| 0 <= j < i + 1 && cands@[j] == x) {
                    let j = choose|j: int| 0 <= j < i + 1 && cands@[j] == x;
                    if j < i {
                        assert(exists|j: int| 0 <= j < i && cands@[j] == x);
                    }
                }
            }
        }
        i = i + 1;
    }
    proof {
        assert forall|to: Position| v@.contains(to) <==> legal_move(m@, current, from, to) by {
            if v@.contains(to) {
                let j = choose|j: int| 0 <= j < i && cands@[j] == to;
                assert(cands@.contains(to));
            }
            if legal_move(m@, current, from, to) {
                assert(cands@.contains(to));
                let j = choose|j: int| 0 <= j < cands@.len() && cands@[j] == to;
                assert(exists|j: int| 0 <= j < i && cands@[j] == to);
            }
        }
    }
    v
}

/// Whether `player` has no legal move at all.
pub fn no_legal_moves_exec(m: &PieceMap, player: Player) -> (b: bool)
    requires
        m.wf(),
        board_ok(m@),
    ensures
        b == no_legal_moves(m@, player),
{
    proof {
        m.lemma_seq();
    }
    let n = m.len();
    let mut i: usize = 0;
    while i < n
        invariant
            m.wf(),
            board_ok(m@),
            n == m.seq().len(),
            i <= n,
            forall|j: int, to: Position| 0 <= j < i && m.seq()[j].1.player == player && #[trigger] pseudo_move(m@, m.seq()[j].0, to) ==> !safe_after(m@, m.seq()[j].0, to, player),
        decreases n - i,
    {
        let (pos, pc) = m.entry_at(i);
        proof {
            m.lemma_seq();
            assert(m@.contains_key(pos));
        }
        if pc.player == player {
            let cands = piece_moves(m, pos, pc);
            let mut k: usize = 0;
            while k < cands.len()
                invariant
                    m.wf(),
                    board_ok(m@),
                    m@.contains_key(pos),
                    m@[pos] == pc,
                    pc.player == player,
                    on_xiangqi_board(pos),
                    k <= cands@.len(),
                    forall|to: Position| #[trigger] cands@.contains(to) <==> pseudo_move(m@, pos, to),
                    forall|j: int| 0 <= j < k ==> !safe_after(m@, pos, #[trigger] cands@[j], player),
                decreases cands@.len() - k,
            {
                let to = cands[k];
                assert(cands@.contains(to));
                if safe_after_exec(m, pos, to, player) {
                    proof {
                        assert(pseudo_move(m@, pos, to));
                        assert(m@.contains_key(pos) && m@[pos].player == player);
                        assert(safe_after(m@, pos, to, player));
                        assert(!no_legal_moves(m@, player));
                    }
                    return false;
                }
                k = k + 1;
            }
            proof {
                assert forall|to: Position| pseudo_move(m@, pos, to) implies !safe_after(m@, pos, to, player) by {
                    assert(cands@.contains(to));
                    let j = choose|j: int| 0 <= j < cands@.len() && cands@[j] == to;
                    assert(!safe_after(m@, pos, cands@[j], player));
                }
            }
        }
        i = i + 1;
    }
    proof {
        m.lemma_seq();
        assert forall|q: Position, to: Position| m@.contains_key(q) && m@[q].player == player && #[trigger] pseudo_move(m@, q, to) implies !safe_after(m@, q, to, player) by {
            let j = choose|j: int| 0 <= j < m.seq().len() && m.seq()[j].0 == q;
            assert(m@.contains_key(m.seq()[j].0));
        }
    }
    true
}

/// The status of the game with `current` to move.
pub fn status_exec(m: &PieceMap, current: Player) -> (s: GameStatus)
    requires
        m.wf(),
        board_ok(m@),
    ensures
        s == xiangqi_status(m@, current),
{
    if check_exec(m, current) {
        if no_legal_moves_exec(m, current) {
            GameStatus::Checkmate { winner: current.opponent() }
        } else {
            GameStatus::Check { player: current }
        }
    } else if no_legal_moves_exec(m, current) {
        GameStatus::Stalemate
    } else {
        GameStatus::Ongoing
    }
}

} // verus!
