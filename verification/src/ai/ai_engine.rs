use vstd::prelude::*;
use crate::models::position::Position;
use crate::models::piece::{Piece, Player, PieceType, XiangqiPiece, JunqiPiece, opponent_of};
use crate::game_engine::game_engine_trait::{GameEngine, Standing};
use super::difficulty::{Difficulty, depth_of};

verus! {

/// The computer opponent: a minimax search with alpha-beta pruning.
pub struct AIEngine {
    search_depth: u8,
}

/// A move of a piece from one square to another.
#[derive(Debug, Clone, Copy, PartialEq, Eq, Structural)]
pub struct Move {
    pub from: Position,
    pub to: Position,
}

/// Material value of a Xiangqi piece.
pub open spec fn xiangqi_material(k: XiangqiPiece) -> int {
    match k {
        XiangqiPiece::General => 10000,
        XiangqiPiece::Chariot => 1000,
        XiangqiPiece::Horse => 450,
        XiangqiPiece::Cannon => 450,
        XiangqiPiece::Elephant => 200,
        XiangqiPiece::Advisor => 200,
        XiangqiPiece::Soldier => 100,
    }
}

/// Distance between two coordinates.
pub open spec fn gap(a: int, b: int) -> int {
    if a >= b {
        a - b
    } else {
        b - a
    }
}

/// Positional value of a Xiangqi piece: soldiers gain 10 a row beyond the river
/// line, horses and cannons gain near the centre, chariots a flat 10.
pub open spec fn xiangqi_position_value(k: XiangqiPiece, p: Position) -> int {
    match k {
        XiangqiPiece::Soldier => if p.row >= 5 {
            20 + (p.row - 5) * 10
        } else {
            20 + (4 - p.row) * 10
        },
        XiangqiPiece::Horse | XiangqiPiece::Cannon => 20 - (gap(p.row as int, 5) + gap(
            p.col as int,
            4,
        )) * 2,
        XiangqiPiece::Chariot => 10,
        _ => 0,
    }
}

/// Value of a Junqi piece.
pub open spec fn junqi_value(k: JunqiPiece) -> int {
    match k {
        JunqiPiece::Flag => 10000,
        JunqiPiece::Commander => 900,
        JunqiPiece::General => 800,
        JunqiPiece::Major => 700,
        JunqiPiece::Colonel => 600,
        JunqiPiece::Captain => 500,
        JunqiPiece::Battalion => 400,
        JunqiPiece::Company => 300,
        JunqiPiece::Platoon => 200,
        JunqiPiece::Engineer => 150,
        JunqiPiece::Bomb => 300,
        JunqiPiece::Landmine => 250,
    }
}

/// Value of a piece standing on `p`.
pub open spec fn piece_value(t: PieceType, p: Position) -> int {
    match t {
        PieceType::Xiangqi(k) => xiangqi_material(k) + xiangqi_position_value(k, p),
        PieceType::Junqi(k) => junqi_value(k),
    }
}

/// The material balance of `s` from the side of `ai`: its pieces count for it,
/// the others against it.
pub open spec fn material(s: Seq<(Position, Piece)>, ai: Player) -> int
    decreases s.len(),
{
    if s.len() == 0 {
        0
    } else {
        let (p, pc) = s.last();
        material(s.drop_last(), ai) + if pc.player == ai {
            piece_value(pc.piece_type, p)
        } else {
            -piece_value(pc.piece_type, p)
        }
    }
}

/// The number of legal moves of the pieces of `player` among the entries `s`,
/// in a game of standing `st`, each piece's list of destinations counted in full.
pub open spec fn mobility_of<T: GameEngine>(st: Standing, s: Seq<(Position, Piece)>, player: Player) -> int
    decreases s.len(),
{
    if s.len() == 0 {
        0
    } else {
        mobility_of::<T>(st, s.drop_last(), player) + if s.last().1.player == player {
            T::rule_moves_len(st, s.last().0) as int
        } else {
            0
        }
    }
}

/// `x` brought into the range of `i32`.
pub open spec fn clamp_i32(x: int) -> int {
    if x < i32::MIN {
        i32::MIN as int
    } else if x > i32::MAX {
        i32::MAX as int
    } else {
        x
    }
}

/// The score of a game of standing `st` for `ai`: 10000 for a won game, -10000
/// for a lost one, 0 for a finished game without winner; otherwise the
/// material balance plus ten times the difference in legal moves. (Games in
/// order always score within the range of `i32`; the bound only closes the
/// definition over all standings.)
pub open spec fn eval_standing<T: GameEngine>(st: Standing, ai: Player) -> int {
    clamp_i32(
        if T::rule_over(st) {
            final_score(T::rule_winner(st), ai)
        } else {
            with_mobility(
                material(st.0, ai),
                mobility_of::<T>(st, st.0, ai),
                mobility_of::<T>(st, st.0, opponent_of(ai)),
            )
        },
    )
}

/// The score of a finished game from the side of `ai`.
pub open spec fn final_score(winner: Option<Player>, ai: Player) -> int {
    match winner {
        Some(w) => if w == ai {
            10000
        } else {
            -10000
        },
        None => 0,
    }
}

/// The move `mv` is legal in a game of standing `s`.
pub open spec fn legal_in<T: GameEngine>(s: Standing, mv: Move) -> bool {
    T::rule_legal(s, mv.from, mv.to)
}

/// `ms` holds exactly the legal moves of standing `s`, in some order and
/// perhaps some more than once.
pub open spec fn lists_moves<T: GameEngine>(s: Standing, ms: Seq<Move>) -> bool {
    forall|mv: Move| #[trigger] ms.contains(mv) <==> legal_in::<T>(s, mv)
}

/// A list of the legal moves of standing `s` (all such lists give the same
/// best value, see `lemma_best_of_same`).
pub open spec fn legal_list<T: GameEngine>(s: Standing) -> Seq<Move> {
    choose|ms: Seq<Move>| lists_moves::<T>(s, ms)
}

/// Where some list holds exactly the legal moves of `s` (as the one the engine
/// builds does), `legal_list` holds exactly the legal moves of `s` too.
pub proof fn lemma_legal_list<T: GameEngine>(s: Standing, ms: Seq<Move>)
    requires
        lists_moves::<T>(s, ms),
    ensures
        lists_moves::<T>(s, legal_list::<T>(s)),
        forall|mv: Move| #[trigger] legal_list::<T>(s).contains(mv) <==> legal_in::<T>(s, mv),
{
}

/// The minimax value of a game of standing `s` for `ai`, looking `depth`
/// plies ahead, with the side to move maximizing or minimizing: the score of
/// the position at depth 0 or when the game is over, otherwise the best value
/// over the legal moves (`i32::MIN` for a maximizing side without moves,
/// `i32::MAX` for a minimizing one).
pub open spec fn minimax_value<T: GameEngine>(s: Standing, depth: nat, maximizing: bool, ai: Player) -> int
    decreases depth, 1int, 0int,
{
    if depth == 0 || T::rule_over(s) {
        eval_standing::<T>(s, ai)
    } else {
        best_of::<T>(s, legal_list::<T>(s), depth, maximizing, ai)
    }
}

/// The best value, for the side to move, over the moves `ms` of standing `s`.
pub open spec fn best_of<T: GameEngine>(
    s: Standing,
    ms: Seq<Move>,
    depth: nat,
    maximizing: bool,
    ai: Player,
) -> int
    decreases depth, 0int, ms.len(),
{
    if depth == 0 {
        0
    } else if ms.len() == 0 {
        if maximizing {
            i32::MIN as int
        } else {
            i32::MAX as int
        }
    } else {
        let prev = best_of::<T>(s, ms.drop_last(), depth, maximizing, ai);
        let w = minimax_value::<T>(
            T::rule_after(s, ms.last().from, ms.last().to),
            (depth - 1) as nat,
            !maximizing,
            ai,
        );
        if maximizing {
            if w > prev {
                w
            } else {
                prev
            }
        } else {
            if w < prev {
                w
            } else {
                prev
            }
        }
    }
}

/// The value of playing `mv` in a game of standing `s` searched `depth` plies deep.
pub open spec fn move_value<T: GameEngine>(
    s: Standing,
    mv: Move,
    depth: nat,
    maximizing: bool,
    ai: Player,
) -> int {
    minimax_value::<T>(T::rule_after(s, mv.from, mv.to), (depth - 1) as nat, !maximizing, ai)
}

/// The best value over a list bounds the value of each of its moves and is
/// either the value of one of them or the value of no move.
pub proof fn lemma_best_of_bounds<T: GameEngine>(
    s: Standing,
    ms: Seq<Move>,
    depth: nat,
    maximizing: bool,
    ai: Player,
)
    requires
        depth >= 1,
    ensures
        maximizing ==> best_of::<T>(s, ms, depth, maximizing, ai) >= i32::MIN,
        !maximizing ==> best_of::<T>(s, ms, depth, maximizing, ai) <= i32::MAX,
        forall|j: int|
            0 <= j < ms.len() ==> (if maximizing {
                #[trigger] move_value::<T>(s, ms[j], depth, maximizing, ai) <= best_of::<T>(
                    s,
                    ms,
                    depth,
                    maximizing,
                    ai,
                )
            } else {
                move_value::<T>(s, ms[j], depth, maximizing, ai) >= best_of::<T>(
                    s,
                    ms,
                    depth,
                    maximizing,
                    ai,
                )
            }),
        best_of::<T>(s, ms, depth, maximizing, ai) == (if maximizing {
            i32::MIN as int
        } else {
            i32::MAX as int
        }) || exists|j: int|
            0 <= j < ms.len() && best_of::<T>(s, ms, depth, maximizing, ai) == #[trigger] move_value::<T>(
                s,
                ms[j],
                depth,
                maximizing,
                ai,
            ),
    decreases ms.len(),
{
    if ms.len() > 0 {
        let t = ms.drop_last();
        lemma_best_of_bounds::<T>(s, t, depth, maximizing, ai);
        assert forall|j: int| 0 <= j < t.len() implies #[trigger] t[j] == ms[j] by {}
        let k = ms.len() - 1;
        assert(ms[k] == ms.last());
        let b = best_of::<T>(s, ms, depth, maximizing, ai);
        let bt = best_of::<T>(s, t, depth, maximizing, ai);
        if bt != (if maximizing {
            i32::MIN as int
        } else {
            i32::MAX as int
        }) {
            let j = choose|j: int|
                0 <= j < t.len() && bt == #[trigger] move_value::<T>(s, t[j], depth, maximizing, ai);
            assert(t[j] == ms[j]);
        }
        assert(move_value::<T>(s, ms[k], depth, maximizing, ai) == minimax_value::<T>(
            T::rule_after(s, ms.last().from, ms.last().to),
            (depth - 1) as nat,
            !maximizing,
            ai,
        ));
        assert forall|j: int| 0 <= j < ms.len() implies (if maximizing {
            #[trigger] move_value::<T>(s, ms[j], depth, maximizing, ai) <= b
        } else {
            move_value::<T>(s, ms[j], depth, maximizing, ai) >= b
        }) by {
            if j < k {
                assert(t[j] == ms[j]);
            }
        }
    }
}

/// Every minimax value lies within the range of `i32`.
pub proof fn lemma_value_range<T: GameEngine>(s: Standing, depth: nat, maximizing: bool, ai: Player)
    ensures
        i32::MIN <= minimax_value::<T>(s, depth, maximizing, ai) <= i32::MAX,
    decreases depth, 1int, 0int,
{
    if !(depth == 0 || T::rule_over(s)) {
        lemma_best_of_range::<T>(s, legal_list::<T>(s), depth, maximizing, ai);
    }
}

/// Every best value over a list of moves lies within the range of `i32`.
pub proof fn lemma_best_of_range<T: GameEngine>(
    s: Standing,
    ms: Seq<Move>,
    depth: nat,
    maximizing: bool,
    ai: Player,
)
    requires
        depth >= 1,
    ensures
        i32::MIN <= best_of::<T>(s, ms, depth, maximizing, ai) <= i32::MAX,
    decreases depth, 0int, ms.len(),
{
    if ms.len() > 0 {
        lemma_best_of_range::<T>(s, ms.drop_last(), depth, maximizing, ai);
        lemma_value_range::<T>(
            T::rule_after(s, ms.last().from, ms.last().to),
            (depth - 1) as nat,
            !maximizing,
            ai,
        );
    }
}

/// Two lists holding the same moves give the same best value.
pub proof fn lemma_best_of_same<T: GameEngine>(
    s: Standing,
    ms1: Seq<Move>,
    ms2: Seq<Move>,
    depth: nat,
    maximizing: bool,
    ai: Player,
)
    requires
        depth >= 1,
        forall|mv: Move| ms1.contains(mv) <==> ms2.contains(mv),
    ensures
        best_of::<T>(s, ms1, depth, maximizing, ai) == best_of::<T>(s, ms2, depth, maximizing, ai),
{
    lemma_best_of_bounds::<T>(s, ms1, depth, maximizing, ai);
    lemma_best_of_bounds::<T>(s, ms2, depth, maximizing, ai);
    let b1 = best_of::<T>(s, ms1, depth, maximizing, ai);
    let b2 = best_of::<T>(s, ms2, depth, maximizing, ai);
    let dflt = if maximizing {
        i32::MIN as int
    } else {
        i32::MAX as int
    };
    if b1 != dflt {
        let j = choose|j: int| 0 <= j < ms1.len() && b1 == #[trigger] move_value::<T>(s, ms1[j], depth, maximizing, ai);
        assert(ms1.contains(ms1[j]));
        let k = choose|k: int| 0 <= k < ms2.len() && ms2[k] == ms1[j];
        assert(move_value::<T>(s, ms2[k], depth, maximizing, ai) == b1);
    }
    if b2 != dflt {
        let j = choose|j: int| 0 <= j < ms2.len() && b2 == #[trigger] move_value::<T>(s, ms2[j], depth, maximizing, ai);
        assert(ms2.contains(ms2[j]));
        let k = choose|k: int| 0 <= k < ms1.len() && ms1[k] == ms2[j];
        assert(move_value::<T>(s, ms1[k], depth, maximizing, ai) == b2);
    }
}

/// A material balance adjusted by ten points per legal move of the side
/// counted for, less ten per legal move of the other side.
pub open spec fn with_mobility(base: int, own_moves: int, other_moves: int) -> int {
    base + (own_moves - other_moves) * 10
}

/// The material balance for one side is the negation of that for the other.
pub proof fn lemma_material_opponent(s: Seq<(Position, Piece)>, ai: Player)
    ensures
        material(s, opponent_of(ai)) == -material(s, ai),
    decreases s.len(),
{
    if s.len() > 0 {
        lemma_material_opponent(s.drop_last(), ai);
    }
}

proof fn lemma_value_bounds(t: PieceType, p: Position)
    ensures
        -1100 <= piece_value(t, p) <= 12600,
{
}

impl AIEngine {
    #[verifier::type_invariant]
    closed spec fn inv(self) -> bool {
        self.search_depth >= 1
    }

    /// The number of plies the engine looks ahead.
    pub closed spec fn depth(self) -> u8 {
        self.search_depth
    }

    /// An engine searching as deep as the difficulty asks.
    pub fn new(difficulty: Difficulty) -> (e: Self)
        ensures
            e.depth() == depth_of(difficulty),
    {
        Self { search_depth: difficulty.search_depth() }
    }

    /// The search depth.
    pub fn get_search_depth(&self) -> (d: u8)
        ensures
            d == self.depth(),
    {
        self.search_depth
    }

    /// The move the engine plays for the side to move: one with the best
    /// minimax value at the engine's depth (the first such in the order of the
    /// pieces on the board and of their move lists). Nothing when the side to
    /// move has no legal move, or when every move has the lowest value `i32::MIN`.
    pub fn calculate_best_move<T: GameEngine>(&self, game: &T) -> (r: Option<Move>)
        requires
            game.wf(),
        ensures
            r matches Some(mv) ==> game.legal(mv.from, mv.to),
            r matches Some(mv) ==> game.board().pieces@.contains_key(mv.from)
                && game.board().pieces@[mv.from].player == game.board().current_player,
            (forall|f: Position, t: Position| !game.legal(f, t)) ==> r is None,
            self.depth() <= 2 && (exists|f: Position, t: Position| game.legal(f, t)) ==> r is Some,
            ({
                let st = game.standing();
                let d = self.depth() as nat;
                let ai = game.board().current_player;
                let best = best_of::<T>(st, legal_list::<T>(st), d, true, ai);
                &&& (r is None <==> best == i32::MIN)
                &&& (r matches Some(mv) ==> move_value::<T>(st, mv, d, true, ai) == best)
                &&& (r matches Some(mv) ==> forall|m2: Move|
                    game.legal(m2.from, m2.to) ==> #[trigger] move_value::<T>(st, m2, d, true, ai)
                        <= move_value::<T>(st, mv, d, true, ai))
                &&& lists_moves::<T>(st, legal_list::<T>(st))
            }),
    {
        proof {
            use_type_invariant(self);
            game.lemma_rules();
        }
        let current_player = game.get_board_state().current_player;
        let mut best_move: Option<Move> = None;
        let mut best_score = i32::MIN;
        let mut alpha = i32::MIN;
        let beta = i32::MAX;
        let all_moves = self.get_all_possible_moves(game);
        let ghost st = game.standing();
        let ghost d = self.search_depth as nat;
        let ghost ms = all_moves@;
        proof {
            assert forall|mv: Move| #[trigger] ms.contains(mv) <==> legal_in::<T>(st, mv) by {
                if ms.contains(mv) {
                    let k = choose|k: int| 0 <= k < ms.len() && ms[k] == mv;
                    assert(game.legal(ms[k].from, ms[k].to));
                }
                if legal_in::<T>(st, mv) {
                    assert(game.legal(mv.from, mv.to));
                    assert(ms.contains(Move { from: mv.from, to: mv.to }));
                }
            }
            assert(lists_moves::<T>(st, ms));
            lemma_best_of_same::<T>(st, legal_list::<T>(st), ms, d, true, current_player);
            assert(ms.take(0) =~= Seq::<Move>::empty());
            assert(ms.take(ms.len() as int) =~= ms);
        }
        if all_moves.len() == 0 {
            proof {
                if exists|f: Position, t: Position| game.legal(f, t) {
                    let (f, t) = choose|f: Position, t: Position| game.legal(f, t);
                    assert(all_moves@.contains(Move { from: f, to: t }));
                }
                assert forall|f: Position, t: Position| !game.legal(f, t) by {
                    if game.legal(f, t) {
                        let k = choose|k: int| 0 <= k < all_moves@.len() && all_moves@[k] == Move { from: f, to: t };
                    }
                }
            }
            return None;
        }
        let mut i: usize = 0;
        while i < all_moves.len()
            invariant
                game.wf(),
                self.search_depth >= 1,
                d == self.search_depth as nat,
                st == game.standing(),
                current_player == game.board().current_player,
                all_moves@ == ms,
                ms.take(ms.len() as int) == ms,
                i <= all_moves@.len(),
                forall|k: int| 0 <= k < all_moves@.len() ==> game.legal(#[trigger] all_moves@[k].from, all_moves@[k].to),
                best_move matches Some(mv) ==> game.legal(mv.from, mv.to),
                i > 0 && self.search_depth <= 2 ==> best_move is Some,
                best_move is None <==> best_score == i32::MIN,
                alpha == best_score,
                beta == i32::MAX,
                best_score == best_of::<T>(st, ms.take(i as int), d, true, current_player),
                best_move matches Some(mv) ==> move_value::<T>(st, mv, d, true, current_player)
                    == best_score,
            decreases all_moves@.len() - i,
        {
            let mv = all_moves[i];
            let mut game_copy = game.duplicate();
            let ghost w = move_value::<T>(st, mv, d, true, current_player);
            let ghost pm = best_score as int;
            proof {
                let pre = ms.take(i + 1);
                assert(pre.drop_last() =~= ms.take(i as int));
                assert(pre.last() == mv);
                assert(game.legal(mv.from, mv.to));
                assert(best_of::<T>(st, pre, d, true, current_player) == if w > pm {
                    w
                } else {
                    pm
                });
                lemma_value_range::<T>(T::rule_after(st, mv.from, mv.to), (d - 1) as nat, false, current_player);
            }
            let moved = game_copy.make_move(mv.from, mv.to);
            proof {
                assert(moved is Ok);
                assert(game_copy.standing() == T::rule_after(st, mv.from, mv.to));
            }
            if moved.is_ok() {
                let score = self.minimax(
                    &game_copy,
                    self.search_depth - 1,
                    alpha,
                    beta,
                    false,
                    current_player,
                );
                proof {
                    assert(minimax_value::<T>(game_copy.standing(), (self.search_depth - 1) as nat, false, current_player) == w);
                    if alpha < beta {
                        if w <= alpha {
                            assert(score <= alpha);
                        } else if w < beta {
                            assert(score == w);
                        } else {
                            assert(score >= beta);
                        }
                    }
                }
                if score > best_score {
                    best_score = score;
                    best_move = Some(mv);
                }
                if score > alpha {
                    alpha = score;
                }
            }
            i = i + 1;
        }
        proof {
            if let Some(mv) = best_move {
                game.lemma_legal_piece(mv.from, mv.to);
            }
            lemma_legal_list::<T>(st, ms);
            lemma_best_of_bounds::<T>(st, ms, d, true, current_player);
            assert forall|m2: Move| game.legal(m2.from, m2.to) implies #[trigger] move_value::<T>(
                st,
                m2,
                d,
                true,
                current_player,
            ) <= best_score by {
                assert(ms.contains(Move { from: m2.from, to: m2.to }));
                let k = choose|k: int| 0 <= k < ms.len() && ms[k] == m2;
            }
        }
        best_move
    }

    /// The minimax score of `game` for `ai_player`, searched `depth` plies
    /// deep with alpha-beta pruning.
    pub fn minimax<T: GameEngine>(
        &self,
        game: &T,
        depth: u8,
        alpha: i32,
        beta: i32,
        maximizing: bool,
        ai_player: Player,
    ) -> (score: i32)
        requires
            game.wf(),
        ensures
            game.over() ==> score == final_score(game.winner(), ai_player),
            depth == 0 || game.over() ==> score == eval_standing::<T>(game.standing(), ai_player),
            depth == 0 || (depth == 1 && !maximizing) ==> score > i32::MIN,
            alpha < beta ==> {
                let v = minimax_value::<T>(game.standing(), depth as nat, maximizing, ai_player);
                &&& (alpha < v < beta ==> score == v)
                &&& (v <= alpha ==> score <= alpha)
                &&& (v >= beta ==> score >= beta)
            },
        decreases depth,
    {
        proof {
            game.lemma_rules();
        }
        if depth == 0 || game.is_game_over() {
            return self.evaluate_position(game, ai_player);
        }
        let ghost st = game.standing();
        let ghost alpha0 = alpha;
        let ghost beta0 = beta;
        let mut alpha = alpha;
        let mut beta = beta;
        let all_moves = self.get_all_possible_moves(game);
        let ghost ms = all_moves@;
        proof {
            assert forall|mv: Move| #[trigger] ms.contains(mv) <==> legal_in::<T>(st, mv) by {
                if ms.contains(mv) {
                    let k = choose|k: int| 0 <= k < ms.len() && ms[k] == mv;
                    assert(game.legal(ms[k].from, ms[k].to));
                }
                if legal_in::<T>(st, mv) {
                    assert(game.legal(mv.from, mv.to));
                    assert(ms.contains(Move { from: mv.from, to: mv.to }));
                }
            }
            assert(lists_moves::<T>(st, ms));
            lemma_best_of_same::<T>(st, legal_list::<T>(st), ms, depth as nat, maximizing, ai_player);
            assert(ms.take(0) =~= Seq::<Move>::empty());
            assert(ms.take(ms.len() as int) =~= ms);
        }
        if maximizing {
            let mut max_eval = i32::MIN;
            let mut i: usize = 0;
            while i < all_moves.len()
                invariant_except_break
                    alpha0 < beta0 ==> alpha < beta0,
                    alpha0 < beta0 ==> {
                        let pm = best_of::<T>(st, ms.take(i as int), depth as nat, true, ai_player);
                        &&& (pm <= alpha0 ==> max_eval <= alpha0)
                        &&& (pm > alpha0 ==> max_eval == pm)
                    },
                invariant
                    game.wf(),
                    depth >= 1,
                    i <= all_moves@.len(),
                    all_moves@ == ms,
                    ms.take(ms.len() as int) == ms,
                    st == game.standing(),
                    beta == beta0,
                    forall|k: int| 0 <= k < ms.len() ==> game.legal(#[trigger] ms[k].from, ms[k].to),
                    forall|f: Position, t: Position| #[trigger] game.legal(f, t) == T::rule_legal(st, f, t),
                    alpha == (if alpha0 > max_eval { alpha0 } else { max_eval }),
                ensures
                    alpha0 < beta0 ==> {
                        let v = best_of::<T>(st, ms, depth as nat, true, ai_player);
                        &&& (alpha0 < v < beta0 ==> max_eval == v)
                        &&& (v <= alpha0 ==> max_eval <= alpha0)
                        &&& (v >= beta0 ==> max_eval >= beta0)
                    },
                decreases all_moves@.len() - i,
            {
                let mv = all_moves[i];
                let mut game_copy = game.duplicate();
                let ghost w = move_value::<T>(st, mv, depth as nat, true, ai_player);
                let ghost pm = best_of::<T>(st, ms.take(i as int), depth as nat, true, ai_player);
                proof {
                    let pre = ms.take(i + 1);
                    assert(pre.drop_last() =~= ms.take(i as int));
                    assert(pre.last() == mv);
                    assert(game.legal(mv.from, mv.to));
                    assert(best_of::<T>(st, pre, depth as nat, true, ai_player) == if w > pm {
                        w
                    } else {
                        pm
                    });
                }
                let moved = game_copy.make_move(mv.from, mv.to);
                proof {
                    assert(moved is Ok);
                    assert(game_copy.standing() == T::rule_after(st, mv.from, mv.to));
                }
                if moved.is_ok() {
                    let ghost a0 = alpha;
                    let ghost e0 = max_eval;
                    let eval = self.minimax(&game_copy, depth - 1, alpha, beta, false, ai_player);
                    assert(minimax_value::<T>(game_copy.standing(), (depth - 1) as nat, false, ai_player) == w);
                    proof {
                        if alpha0 < beta0 {
                            assert(a0 < beta);
                            if w <= a0 {
                                assert(eval <= a0);
                            } else if w < beta {
                                assert(eval == w);
                            } else {
                                assert(eval >= beta);
                            }
                        }
                    }
                    if eval > max_eval {
                        max_eval = eval;
                    }
                    if eval > alpha {
                        alpha = eval;
                    }
                    if beta <= alpha {
                        proof {
                            if alpha0 < beta0 {
                                lemma_best_of_bounds::<T>(st, ms, depth as nat, true, ai_player);
                                assert(ms[i as int] == mv);
                            }
                        }
                        break;
                    }
                }
                i = i + 1;
            }
            max_eval
        } else {
            let mut min_eval = i32::MAX;
            let mut i: usize = 0;
            while i < all_moves.len()
                invariant_except_break
                    alpha0 < beta0 ==> alpha0 < beta,
                    alpha0 < beta0 ==> {
                        let pm = best_of::<T>(st, ms.take(i as int), depth as nat, false, ai_player);
                        &&& (pm >= beta0 ==> min_eval >= beta0)
                        &&& (pm < beta0 ==> min_eval == pm)
                    },
                invariant
                    game.wf(),
                    depth >= 1,
                    i <= all_moves@.len(),
                    depth == 1 ==> min_eval > i32::MIN,
                    all_moves@ == ms,
                    ms.take(ms.len() as int) == ms,
                    st == game.standing(),
                    alpha == alpha0,
                    forall|k: int| 0 <= k < ms.len() ==> game.legal(#[trigger] ms[k].from, ms[k].to),
                    forall|f: Position, t: Position| #[trigger] game.legal(f, t) == T::rule_legal(st, f, t),
                    beta == (if beta0 < min_eval { beta0 } else { min_eval }),
                ensures
                    depth == 1 ==> min_eval > i32::MIN,
                    alpha0 < beta0 ==> {
                        let v = best_of::<T>(st, ms, depth as nat, false, ai_player);
                        &&& (alpha0 < v < beta0 ==> min_eval == v)
                        &&& (v <= alpha0 ==> min_eval <= alpha0)
                        &&& (v >= beta0 ==> min_eval >= beta0)
                    },
                decreases all_moves@.len() - i,
            {
                let mv = all_moves[i];
                let mut game_copy = game.duplicate();
                let ghost w = move_value::<T>(st, mv, depth as nat, false, ai_player);
                let ghost pm = best_of::<T>(st, ms.take(i as int), depth as nat, false, ai_player);
                proof {
                    let pre = ms.take(i + 1);
                    assert(pre.drop_last() =~= ms.take(i as int));
                    assert(pre.last() == mv);
                    assert(game.legal(mv.from, mv.to));
                    assert(best_of::<T>(st, pre, depth as nat, false, ai_player) == if w < pm {
                        w
                    } else {
                        pm
                    });
                }
                let moved = game_copy.make_move(mv.from, mv.to);
                proof {
                    assert(moved is Ok);
                    assert(game_copy.standing() == T::rule_after(st, mv.from, mv.to));
                }
                if moved.is_ok() {
                    let ghost b0 = beta;
                    let eval = self.minimax(&game_copy, depth - 1, alpha, beta, true, ai_player);
                    assert(minimax_value::<T>(game_copy.standing(), (depth - 1) as nat, true, ai_player) == w);
                    proof {
                        if alpha0 < beta0 {
                            assert(alpha < b0);
                            if w >= b0 {
                                assert(eval >= b0);
                            } else if w > alpha {
                                assert(eval == w);
                            } else {
                                assert(eval <= alpha);
                            }
                        }
                    }
                    if eval < min_eval {
                        min_eval = eval;
                    }
                    if eval < beta {
                        beta = eval;
                    }
                    if beta <= alpha {
                        proof {
                            if alpha0 < beta0 {
                                lemma_best_of_bounds::<T>(st, ms, depth as nat, false, ai_player);
                                assert(ms[i as int] == mv);
                            }
                        }
                        break;
                    }
                }
                i = i + 1;
            }
            min_eval
        }
    }

    /// The score of `game` for `ai_player`: 10000 for a won game, -10000 for
    /// a lost one, 0 for a finished game without winner; otherwise the material
    /// balance plus ten times the difference in legal moves.
    pub fn evaluate_position<T: GameEngine>(&self, game: &T, ai_player: Player) -> (score: i32)
        requires
            game.wf(),
        ensures
            game.over() ==> score == final_score(game.winner(), ai_player),
            score > i32::MIN,
            score == eval_standing::<T>(game.standing(), ai_player),
            score == -eval_standing::<T>(game.standing(), opponent_of(ai_player)),
    {
        proof {
            game.lemma_rules();
        }
        if game.is_game_over() {
            match game.get_winner() {
                Some(winner) => {
                    if winner == ai_player {
                        return 10000;
                    } else {
                        return -10000;
                    }
                },
                None => return 0,
            }
        }
        let board = game.get_board_state();
        proof {
            game.lemma_board_bounded();
            board.pieces.lemma_seq();
        }
        let n = board.pieces.len();
        let mut score: i32 = 0;
        assert(board.pieces.seq().subrange(0, 0) =~= Seq::<(Position, Piece)>::empty());
        let mut i: usize = 0;
        while i < n
            invariant
                board.pieces.wf(),
                n == board.pieces.seq().len(),
                n <= 90,
                i <= n,
                score == material(board.pieces.seq().subrange(0, i as int), ai_player),
                -12600 * i <= score <= 12600 * i,
            decreases n - i,
        {
            let (position, piece) = board.pieces.entry_at(i);
            let value = self.get_piece_value(&piece.piece_type, position);
            proof {
                lemma_value_bounds(piece.piece_type, position);
                let s = board.pieces.seq().subrange(0, i + 1);
                assert(s.drop_last() =~= board.pieces.seq().subrange(0, i as int));
                assert(s.last() == (position, piece));
                assert(-12600 * (i + 1) == -12600 * i - 12600);
                assert(12600 * (i + 1) == 12600 * i + 12600);
            }
            if piece.player == ai_player {
                score = score + value;
            } else {
                score = score - value;
            }
            i = i + 1;
        }
        proof {
            assert(board.pieces.seq().subrange(0, n as int) =~= board.pieces.seq());
        }
        let ai_mobility = self.calculate_mobility(game, ai_player);
        let opponent_mobility = self.calculate_mobility(game, ai_player.opponent());
        let total = score + (ai_mobility - opponent_mobility) * 10;
        proof {
            lemma_material_opponent(board.pieces.seq(), ai_player);
            assert(opponent_of(opponent_of(ai_player)) == ai_player);
            assert(total == with_mobility(
                material(board.pieces.seq(), ai_player),
                ai_mobility as int,
                opponent_mobility as int,
            ));
        }
        total
    }

    /// The value of a piece of type `piece_type` standing on `position`.
    fn get_piece_value(&self, piece_type: &PieceType, position: Position) -> (v: i32)
        ensures
            v == piece_value(*piece_type, position),
    {
        match piece_type {
            PieceType::Xiangqi(k) => self.get_xiangqi_piece_value(*k, position),
            PieceType::Junqi(k) => self.get_junqi_piece_value(*k, position),
        }
    }

    /// Material plus positional value of a Xiangqi piece.
    fn get_xiangqi_piece_value(&self, piece: XiangqiPiece, position: Position) -> (v: i32)
        ensures
            v == xiangqi_material(piece) + xiangqi_position_value(piece, position),
    {
        let material_value: i32 = match piece {
            XiangqiPiece::General => 10000,
            XiangqiPiece::Chariot => 1000,
            XiangqiPiece::Horse => 450,
            XiangqiPiece::Cannon => 450,
            XiangqiPiece::Elephant => 200,
            XiangqiPiece::Advisor => 200,
            XiangqiPiece::Soldier => 100,
        };
        let row = position.row as i32;
        let col = position.col as i32;
        let position_value: i32 = match piece {
            XiangqiPiece::Soldier => {
                if row >= 5 {
                    20 + (row - 5) * 10
                } else {
                    20 + (4 - row) * 10
                }
            },
            XiangqiPiece::Horse | XiangqiPiece::Cannon => {
                let dr = if row >= 5 {
                    row - 5
                } else {
                    5 - row
                };
                let dc = if col >= 4 {
                    col - 4
                } else {
                    4 - col
                };
                20 - (dr + dc) * 2
            },
            XiangqiPiece::Chariot => 10,
            _ => 0,
        };
        material_value + position_value
    }

    /// The value of a Junqi piece.
    fn get_junqi_piece_value(&self, piece: JunqiPiece, _position: Position) -> (v: i32)
        ensures
            v == junqi_value(piece),
    {
        match piece {
            JunqiPiece::Flag => 10000,
            JunqiPiece::Commander => 900,
            JunqiPiece::General => 800,
            JunqiPiece::Major => 700,
            JunqiPiece::Colonel => 600,
            JunqiPiece::Captain => 500,
            JunqiPiece::Battalion => 400,
            JunqiPiece::Company => 300,
            JunqiPiece::Platoon => 200,
            JunqiPiece::Engineer => 150,
            JunqiPiece::Bomb => 300,
            JunqiPiece::Landmine => 250,
        }
    }

    /// The number of legal moves of the pieces of `player` (each piece's list
    /// counted in full).
    fn calculate_mobility<T: GameEngine>(&self, game: &T, player: Player) -> (n: i32)
        requires
            game.wf(),
        ensures
            0 <= n <= 21600,
            n == mobility_of::<T>(game.standing(), game.board().pieces.seq(), player),
    {
        let board = game.get_board_state();
        proof {
            game.lemma_board_bounded();
            game.lemma_rules();
        }
        let n = board.pieces.len();
        let mut mobility: i32 = 0;
        let mut i: usize = 0;
        assert(board.pieces.seq().subrange(0, 0) =~= Seq::<(Position, Piece)>::empty());
        while i < n
            invariant
                game.wf(),
                *board == game.board(),
                board.pieces.wf(),
                n == board.pieces.seq().len(),
                n <= 90,
                i <= n,
                0 <= mobility <= 240 * i,
                mobility == mobility_of::<T>(game.standing(), board.pieces.seq().subrange(0, i as int), player),
                forall|f: Position| #[trigger] game.moves_len(f) == T::rule_moves_len(game.standing(), f),
            decreases n - i,
        {
            let (position, piece) = board.pieces.entry_at(i);
            proof {
                let s = board.pieces.seq().subrange(0, i + 1);
                assert(s.drop_last() =~= board.pieces.seq().subrange(0, i as int));
                assert(s.last() == (position, piece));
            }
            if piece.player == player {
                let legal_moves = game.get_legal_moves(position);
                mobility = mobility + legal_moves.len() as i32;
            }
            i = i + 1;
        }
        assert(board.pieces.seq().subrange(0, n as int) =~= board.pieces.seq());
        mobility
    }

    /// Every legal move of the side to move, piece by piece in board order.
    fn get_all_possible_moves<T: GameEngine>(&self, game: &T) -> (moves: Vec<Move>)
        requires
            game.wf(),
        ensures
            forall|k: int| 0 <= k < moves@.len() ==> game.legal(#[trigger] moves@[k].from, moves@[k].to),
            forall|f: Position, t: Position| game.legal(f, t) ==> moves@.contains(Move { from: f, to: t }),
    {
        let board = game.get_board_state();
        let current_player = board.current_player;
        proof {
            game.lemma_board_bounded();
            board.pieces.lemma_seq();
        }
        let n = board.pieces.len();
        let mut moves: Vec<Move> = Vec::new();
        let mut i: usize = 0;
        while i < n
            invariant
                game.wf(),
                *board == game.board(),
                board.pieces.wf(),
                current_player == board.current_player,
                n == board.pieces.seq().len(),
                i <= n,
                forall|k: int| 0 <= k < moves@.len() ==> game.legal(#[trigger] moves@[k].from, moves@[k].to),
                forall|j: int, t: Position| 0 <= j < i && #[trigger] game.legal(board.pieces.seq()[j].0, t) ==> moves@.contains(Move { from: board.pieces.seq()[j].0, to: t }),
            decreases n - i,
        {
            let (position, piece) = board.pieces.entry_at(i);
            if piece.player == current_player {
                let legal_moves = game.get_legal_moves(position);
                let mut k: usize = 0;
                let ghost m0 = moves@;
                while k < legal_moves.len()
                    invariant
                        game.wf(),
                        k <= legal_moves@.len(),
                        forall|t: Position| legal_moves@.contains(t) <==> game.legal(position, t),
                        forall|x: int| 0 <= x < moves@.len() ==> game.legal(#[trigger] moves@[x].from, moves@[x].to),
                        forall|x: Move| #[trigger] m0.contains(x) ==> moves@.contains(x),
                        forall|x: int| 0 <= x < k ==> moves@.contains(Move { from: position, to: #[trigger] legal_moves@[x] }),
                    decreases legal_moves@.len() - k,
                {
                    let to = legal_moves[k];
                    assert(legal_moves@.contains(to));
                    let ghost before = moves@;
                    moves.push(Move { from: position, to });
                    proof {
                        assert forall|x: Move| #[trigger] before.contains(x) implies moves@.contains(x) by {
                            let y = choose|y: int| 0 <= y < before.len() && before[y] == x;
                            assert(moves@[y] == x);
                        }
                        assert(moves@[moves@.len() - 1] == Move { from: position, to });
                        assert forall|x: int| 0 <= x < k + 1 implies moves@.contains(Move { from: position, to: #[trigger] legal_moves@[x] }) by {
                            if x < k {
                                assert(before.contains(Move { from: position, to: legal_moves@[x] }));
                            }
                        }
                    }
                    k = k + 1;
                }
                proof {
                    assert forall|t: Position| game.legal(position, t) implies moves@.contains(Move { from: position, to: t }) by {
                        assert(legal_moves@.contains(t));
                        let x = choose|x: int| 0 <= x < legal_moves@.len() && legal_moves@[x] == t;
                        assert(moves@.contains(Move { from: position, to: legal_moves@[x] }));
                    }
                }
            } else {
                proof {
                    assert forall|t: Position| !game.legal(position, t) by {
                        if game.legal(position, t) {
                            game.lemma_legal_piece(position, t);
                            board.pieces.lemma_seq();
                            assert(board.pieces.seq()[i as int].0 == position);
                            assert(board.pieces@.contains_key(position));
                            assert(board.pieces@[position] == piece);
                        }
                    }
                }
            }
            proof {
                assert forall|j: int, t: Position| 0 <= j < i + 1 && #[trigger] game.legal(board.pieces.seq()[j].0, t) implies moves@.contains(Move { from: board.pieces.seq()[j].0, to: t }) by {
                    if j < i {
                    } else {
                        assert(board.pieces.seq()[j].0 == position);
                    }
                }
            }
            i = i + 1;
        }
        proof {
            assert forall|f: Position, t: Position| game.legal(f, t) implies moves@.contains(Move { from: f, to: t }) by {
                game.lemma_legal_piece(f, t);
                board.pieces.lemma_seq();
                let j = choose|j: int| 0 <= j < board.pieces.seq().len() && board.pieces.seq()[j].0 == f;
                assert(game.legal(board.pieces.seq()[j].0, t));
            }
        }
        moves
    }
}

} // verus!
