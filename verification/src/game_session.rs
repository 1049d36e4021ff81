use vstd::prelude::*;
use crate::models::piece::Player;
use crate::models::game_status::GameStatus;
use crate::game_engine::game_engine_trait::GameEngine;
use crate::game_engine::xiangqi_engine::{XiangqiEngine, xiangqi_opening};
use crate::game_engine::junqi_engine::{JunqiEngine, junqi_opening};
use crate::text::text;

verus! {

/// The two games that can be played.
#[derive(Debug, Clone, Copy, PartialEq, Eq, Structural)]
pub enum GameType {
    Xiangqi,
    Junqi,
}

/// A game in progress, of either kind.
pub enum GameSession {
    Xiangqi(XiangqiEngine),
    Junqi(JunqiEngine),
}

impl GameSession {
    /// The engine inside is in order.
    pub open spec fn swf(&self) -> bool {
        match self {
            GameSession::Xiangqi(e) => e.xwf(),
            GameSession::Junqi(e) => e.jwf(),
        }
    }

    /// The kind of game.
    pub open spec fn kind(&self) -> GameType {
        match self {
            GameSession::Xiangqi(_) => GameType::Xiangqi,
            GameSession::Junqi(_) => GameType::Junqi,
        }
    }

    /// A game of kind `t` as it stands before its first move.
    pub open spec fn is_fresh(&self, t: GameType) -> bool {
        &&& self.kind() == t
        &&& self.swf()
        &&& match self {
            GameSession::Xiangqi(e) => {
                &&& e.board_state.pieces@ == xiangqi_opening()
                &&& e.board_state.current_player == Player::Red
                &&& e.board_state.move_history@.len() == 0
                &&& e.game_status == GameStatus::Ongoing
            },
            GameSession::Junqi(e) => {
                &&& e.board_state.pieces@ == junqi_opening()
                &&& e.board_state.current_player == Player::Red
                &&& e.board_state.move_history@.len() == 0
                &&& e.game_status == GameStatus::Ongoing
            },
        }
    }

    /// A new game of the given kind.
    pub fn new(game_type: GameType) -> (s: Self)
        ensures
            s.is_fresh(game_type),
    {
        match game_type {
            GameType::Xiangqi => GameSession::Xiangqi(XiangqiEngine::new_game()),
            GameType::Junqi => GameSession::Junqi(JunqiEngine::new_game()),
        }
    }

    /// The kind of game.
    pub fn game_type(&self) -> (t: GameType)
        ensures
            t == self.kind(),
    {
        match self {
            GameSession::Xiangqi(_) => GameType::Xiangqi,
            GameSession::Junqi(_) => GameType::Junqi,
        }
    }

    /// The Xiangqi engine, when this is a Xiangqi game.
    pub fn as_xiangqi(&self) -> (r: Option<&XiangqiEngine>)
        ensures
            match self {
                GameSession::Xiangqi(e) => r == Some(e),
                GameSession::Junqi(_) => r is None,
            },
    {
        match self {
            GameSession::Xiangqi(engine) => Some(engine),
            _ => None,
        }
    }

    /// The Junqi engine, when this is a Junqi game.
    pub fn as_junqi(&self) -> (r: Option<&JunqiEngine>)
        ensures
            match self {
                GameSession::Junqi(e) => r == Some(e),
                GameSession::Xiangqi(_) => r is None,
            },
    {
        match self {
            GameSession::Junqi(engine) => Some(engine),
            _ => None,
        }
    }

    /// The Xiangqi engine, to change, when this is a Xiangqi game.
    pub fn as_xiangqi_mut(&mut self) -> (r: Option<&mut XiangqiEngine>)
        ensures
            match *old(self) {
                GameSession::Xiangqi(e) => r matches Some(x) && *x == e && *final(self)
                    == GameSession::Xiangqi(*final(x)),
                GameSession::Junqi(_) => r is None && *final(self) == *old(self),
            },
    {
        match self {
            GameSession::Xiangqi(engine) => Some(engine),
            _ => None,
        }
    }

    /// The Junqi engine, to change, when this is a Junqi game.
    pub fn as_junqi_mut(&mut self) -> (r: Option<&mut JunqiEngine>)
        ensures
            match *old(self) {
                GameSession::Junqi(e) => r matches Some(x) && *x == e && *final(self)
                    == GameSession::Junqi(*final(x)),
                GameSession::Xiangqi(_) => r is None && *final(self) == *old(self),
            },
    {
        match self {
            GameSession::Junqi(engine) => Some(engine),
            _ => None,
        }
    }
}

/// No game id occurs twice in the list.
pub open spec fn ids_distinct(s: Seq<(String, GameSession)>) -> bool {
    forall|i: int, j: int| 0 <= i < s.len() && 0 <= j < s.len() && i != j ==> s[i].0@ != s[j].0@
}

/// The map from game ids to games that a list of distinct ids stands for.
pub open spec fn sessions_of(s: Seq<(String, GameSession)>) -> Map<Seq<char>, GameSession> {
    Map::new(
        |k: Seq<char>| exists|i: int| 0 <= i < s.len() && s[i].0@ == k,
        |k: Seq<char>| s[choose|i: int| 0 <= i < s.len() && s[i].0@ == k].1,
    )
}

proof fn lemma_sessions_entry(s: Seq<(String, GameSession)>, i: int)
    requires
        ids_distinct(s),
        0 <= i < s.len(),
    ensures
        sessions_of(s).contains_key(s[i].0@),
        sessions_of(s)[s[i].0@] == s[i].1,
{
    let k = s[i].0@;
    assert(exists|j: int| 0 <= j < s.len() && s[j].0@ == k);
    let j = choose|j: int| 0 <= j < s.len() && s[j].0@ == k;
    assert(j == i);
}

proof fn lemma_sessions_len(s: Seq<(String, GameSession)>)
    requires
        ids_distinct(s),
    ensures
        sessions_of(s).dom().len() == s.len(),
        sessions_of(s).dom().finite(),
{
    let ks = s.map_values(|e: (String, GameSession)| e.0@);
    assert(ks.no_duplicates());
    ks.unique_seq_to_set();
    assert(sessions_of(s).dom() =~= ks.to_set()) by {
        assert forall|k: Seq<char>| #[trigger] sessions_of(s).dom().contains(k) implies ks.to_set().contains(k) by {
            let i = choose|i: int| 0 <= i < s.len() && s[i].0@ == k;
            assert(ks[i] == k);
        }
        assert forall|k: Seq<char>| #[trigger] ks.to_set().contains(k) implies sessions_of(s).dom().contains(k) by {
            let i = choose|i: int| 0 <= i < ks.len() && ks[i] == k;
            assert(s[i].0@ == k);
        }
    }
}

proof fn lemma_sessions_update(s: Seq<(String, GameSession)>, i: int, x: GameSession)
    requires
        ids_distinct(s),
        0 <= i < s.len(),
    ensures
        ids_distinct(s.update(i, (s[i].0, x))),
        sessions_of(s.update(i, (s[i].0, x))) == sessions_of(s).insert(s[i].0@, x),
{
    let key = s[i].0@;
    let s1 = s.update(i, (s[i].0, x));
    assert forall|k: Seq<char>| #[trigger] sessions_of(s1).contains_key(k) <==> sessions_of(s).insert(key, x).contains_key(k) by {
        if sessions_of(s1).contains_key(k) {
            let j = choose|j: int| 0 <= j < s1.len() && s1[j].0@ == k;
            assert(s[j].0@ == k);
        }
        if k != key && sessions_of(s).contains_key(k) {
            let j = choose|j: int| 0 <= j < s.len() && s[j].0@ == k;
            assert(s1[j].0@ == k);
        }
        if k == key {
            assert(s1[i].0@ == k);
        }
    }
    assert forall|k: Seq<char>| #[trigger] sessions_of(s1).contains_key(k) implies sessions_of(s1)[k] == sessions_of(s).insert(key, x)[k] by {
        let j = choose|j: int| 0 <= j < s1.len() && s1[j].0@ == k;
        lemma_sessions_entry(s1, j);
        if j != i {
            lemma_sessions_entry(s, j);
        }
    }
    assert(sessions_of(s1) =~= sessions_of(s).insert(key, x));
}

/// The message for a game id that names no game.
pub open spec fn missing_session_message(id: Seq<char>) -> Seq<char> {
    "游戏会话不存在: "@ + id
}

/// The games in progress, each under its game id.
pub struct GameSessionManager {
    sessions: Vec<(String, GameSession)>,
}

impl View for GameSessionManager {
    type V = Map<Seq<char>, GameSession>;

    closed spec fn view(&self) -> Map<Seq<char>, GameSession> {
        sessions_of(self.sessions@)
    }
}

impl GameSessionManager {
    /// No id occurs twice, and every game is in order.
    pub closed spec fn wf(self) -> bool {
        &&& ids_distinct(self.sessions@)
        &&& forall|i: int| 0 <= i < self.sessions@.len() ==> (#[trigger] self.sessions@[i]).1.swf()
    }

    /// Every game held is in order.
    pub proof fn lemma_sessions_wf(&self, id: Seq<char>)
        requires
            self.wf(),
            self@.contains_key(id),
        ensures
            self@[id].swf(),
    {
        let i = choose|i: int| 0 <= i < self.sessions@.len() && self.sessions@[i].0@ == id;
        lemma_sessions_entry(self.sessions@, i);
    }

    /// A manager in order holds finitely many games, one per list entry.
    pub proof fn lemma_finite(&self)
        requires
            self.wf(),
        ensures
            self@.dom().finite(),
    {
        lemma_sessions_len(self.sessions@);
    }

    /// A manager without games.
    pub fn new() -> (m: Self)
        ensures
            m.wf(),
            m@ == Map::<Seq<char>, GameSession>::empty(),
    {
        let m = GameSessionManager { sessions: Vec::new() };
        assert(m@ =~= Map::<Seq<char>, GameSession>::empty());
        m
    }

    /// Where the game `id` stands in the list.
    fn find(&self, id: &String) -> (r: Option<usize>)
        requires
            self.wf(),
        ensures
            match r {
                Some(i) => i < self.sessions@.len() && self.sessions@[i as int].0@ == id@,
                None => !self@.contains_key(id@),
            },
    {
        let mut i: usize = 0;
        while i < self.sessions.len()
            invariant
                i <= self.sessions@.len(),
                forall|j: int| 0 <= j < i ==> (#[trigger] self.sessions@[j]).0@ != id@,
            decreases self.sessions@.len() - i,
        {
            if self.sessions[i].0 == *id {
                return Some(i);
            }
            i = i + 1;
        }
        None
    }

    /// A fresh game id: `uuid::Uuid::new_v4()` in its hyphenated text form,
    /// which the uuid crate writes as 36 characters. Which id comes out is
    /// chance: nothing is said of its characters or of how it differs from
    /// ids handed out before.
    #[verifier::external_body]
    fn generate_game_id() -> (id: String)
        ensures
            id@.len() == 36,
    {
        uuid::Uuid::new_v4().to_string()
    }

    /// Starts a game of the given kind under a fresh id and hands the id back.
    /// An id that is already taken has its game replaced.
    pub fn create_session(&mut self, game_type: GameType) -> (r: Result<String, String>)
        requires
            old(self).wf(),
        ensures
            final(self).wf(),
            r matches Ok(id) && id@.len() == 36 && final(self)@.contains_key(id@)
                && final(self)@[id@].is_fresh(game_type)
                && final(self)@ == old(self)@.insert(id@, final(self)@[id@])
                && final(self)@.len() == old(self)@.len() + if old(self)@.contains_key(id@) {
                    0int
                } else {
                    1int
                },
    {
        let game_id = Self::generate_game_id();
        let session = GameSession::new(game_type);
        let ghost key = game_id@;
        let ghost fresh = session;
        proof {
            lemma_sessions_len(self.sessions@);
        }
        self.put(game_id.clone(), session);
        assert(self@[key] == fresh);
        proof {
            lemma_sessions_len(self.sessions@);
            assert(self@.dom() =~= old(self)@.dom().insert(key));
        }
        Ok(game_id)
    }

    /// The game `game_id`, or the message that there is no such game.
    pub fn get_session(&self, game_id: &str) -> (r: Result<&GameSession, String>)
        requires
            self.wf(),
        ensures
            self@.contains_key(game_id@) ==> r == Ok::<&GameSession, String>(&self@[game_id@]),
            !self@.contains_key(game_id@) ==> (r matches Err(m) && m@ == missing_session_message(
                game_id@,
            )),
    {
        let id = game_id.to_owned();
        match self.find(&id) {
            Some(i) => {
                proof {
                    lemma_sessions_entry(self.sessions@, i as int);
                }
                Ok(&self.sessions[i].1)
            },
            None => {
                let mut m = text("游戏会话不存在: ");
                m.append(game_id);
                Err(m)
            },
        }
    }

    /// Runs `f` on the game `game_id` and hands back what it returns; fails
    /// with the message that there is no such game when there is none.
    pub fn with_session<F, R>(&self, game_id: &str, f: F) -> (r: Result<R, String>) where
        F: FnOnce(&GameSession) -> Result<R, String>,

        requires
            self.wf(),
            self@.contains_key(game_id@) ==> f.requires((&self@[game_id@],)),
        ensures
            self@.contains_key(game_id@) ==> f.ensures((&self@[game_id@],), r),
            !self@.contains_key(game_id@) ==> (r matches Err(m) && m@ == missing_session_message(
                game_id@,
            )),
    {
        match self.get_session(game_id) {
            Ok(session) => f(session),
            Err(m) => Err(m),
        }
    }

    /// The game `game_id`, to change, or the message that there is no such
    /// game (and then nothing changes). The manager stays in order when the
    /// game is left in order.
    pub fn with_session_mut(&mut self, game_id: &str) -> (r: Result<&mut GameSession, String>)
        requires
            old(self).wf(),
        ensures
            old(self)@.contains_key(game_id@) ==> (r matches Ok(s) && *s == old(self)@[game_id@]
                && final(self)@ == old(self)@.insert(game_id@, *final(s))
                && (final(s).swf() ==> final(self).wf())),
            !old(self)@.contains_key(game_id@) ==> (r matches Err(m) && m@ == missing_session_message(
                game_id@,
            ) && final(self)@ == old(self)@ && final(self).wf()),
    {
        let id = game_id.to_owned();
        match self.find(&id) {
            Some(i) => {
                let ghost s0 = self.sessions@;
                proof {
                    lemma_sessions_entry(s0, i as int);
                    assert forall|x: GameSession|
                        ids_distinct(#[trigger] s0.update(i as int, (s0[i as int].0, x)))
                        && sessions_of(s0.update(i as int, (s0[i as int].0, x))) == sessions_of(s0).insert(id@, x) by {
                        lemma_sessions_update(s0, i as int, x);
                    }
                }
                let entry = &mut self.sessions[i];
                Ok(&mut entry.1)
            },
            None => {
                let mut m = text("游戏会话不存在: ");
                m.append(game_id);
                Err(m)
            },
        }
    }

    /// Ends the game `game_id`; fails with the message that there is no such
    /// game when there is none.
    pub fn remove_session(&mut self, game_id: &str) -> (r: Result<(), String>)
        requires
            old(self).wf(),
        ensures
            final(self).wf(),
            old(self)@.contains_key(game_id@) ==> (r is Ok && final(self)@ == old(self)@.remove(
                game_id@,
            ) && final(self)@.len() + 1 == old(self)@.len()),
            !old(self)@.contains_key(game_id@) ==> (r matches Err(m) && m@ == missing_session_message(
                game_id@,
            ) && final(self)@ == old(self)@),
    {
        let id = game_id.to_owned();
        match self.find(&id) {
            Some(i) => {
                let ghost s0 = self.sessions@;
                let ghost key = id@;
                let _ = self.sessions.remove(i);
                proof {
                    let s1 = self.sessions@;
                    assert(s1 =~= s0.remove(i as int));
                    assert forall|a: int, b: int| 0 <= a < s1.len() && 0 <= b < s1.len() && a != b implies s1[a].0@ != s1[b].0@ by {
                        let aa = if a < i { a } else { a + 1 };
                        let bb = if b < i { b } else { b + 1 };
                        assert(s1[a] == s0[aa]);
                        assert(s1[b] == s0[bb]);
                    }
                    assert forall|j: int| 0 <= j < s1.len() implies (#[trigger] s1[j]).1.swf() by {
                        let jj = if j < i { j } else { j + 1 };
                        assert(s1[j] == s0[jj]);
                    }
                    assert forall|k: Seq<char>| #[trigger] sessions_of(s1).contains_key(k) <==> sessions_of(s0).remove(key).contains_key(k) by {
                        if sessions_of(s1).contains_key(k) {
                            let j = choose|j: int| 0 <= j < s1.len() && s1[j].0@ == k;
                            let jj = if j < i { j } else { j + 1 };
                            assert(s0[jj].0@ == k);
                            assert(jj != i);
                        }
                        if k != key && sessions_of(s0).contains_key(k) {
                            let j = choose|j: int| 0 <= j < s0.len() && s0[j].0@ == k;
                            assert(j != i);
                            let jj = if j < i { j } else { j - 1 };
                            assert(s1[jj].0@ == k);
                        }
                    }
                    assert forall|k: Seq<char>| #[trigger] sessions_of(s1).contains_key(k) implies sessions_of(s1)[k] == sessions_of(s0).remove(key)[k] by {
                        let j = choose|j: int| 0 <= j < s1.len() && s1[j].0@ == k;
                        let jj = if j < i { j } else { j + 1 };
                        lemma_sessions_entry(s1, j);
                        lemma_sessions_entry(s0, jj);
                    }
                    assert(sessions_of(s1) =~= sessions_of(s0).remove(key));
                    lemma_sessions_len(s0);
                    lemma_sessions_len(s1);
                }
                Ok(())
            },
            None => {
                let mut m = text("游戏会话不存在: ");
                m.append(game_id);
                Err(m)
            },
        }
    }

    /// The number of games in progress.
    pub fn session_count(&self) -> (r: Result<usize, String>)
        requires
            self.wf(),
        ensures
            r matches Ok(n) && n == self@.len(),
    {
        proof {
            lemma_sessions_len(self.sessions@);
        }
        Ok(self.sessions.len())
    }

    /// Ends every game.
    pub fn clear_all_sessions(&mut self) -> (r: Result<(), String>)
        requires
            old(self).wf(),
        ensures
            final(self).wf(),
            r is Ok,
            final(self)@ == Map::<Seq<char>, GameSession>::empty(),
    {
        self.sessions.clear();
        assert(self@ =~= Map::<Seq<char>, GameSession>::empty());
        Ok(())
    }

    /// Puts `session` under `id`, replacing the game held there, if any.
    fn put(&mut self, id: String, session: GameSession)
        requires
            old(self).wf(),
            session.swf(),
        ensures
            final(self).wf(),
            final(self)@ == old(self)@.insert(id@, session),
    {
        let ghost key = id@;
        let ghost s0 = self.sessions@;
        match self.find(&id) {
            Some(i) => {
                self.sessions.set(i, (id, session));
                proof {
                    let s1 = self.sessions@;
                    assert forall|k: Seq<char>| #[trigger] sessions_of(s1).contains_key(k) <==> sessions_of(s0).insert(key, session).contains_key(k) by {
                        if sessions_of(s1).contains_key(k) {
                            let j = choose|j: int| 0 <= j < s1.len() && s1[j].0@ == k;
                            if j != i {
                                assert(s0[j].0@ == k);
                            }
                        }
                        if k != key && sessions_of(s0).contains_key(k) {
                            let j = choose|j: int| 0 <= j < s0.len() && s0[j].0@ == k;
                            assert(s1[j].0@ == k);
                        }
                        if k == key {
                            assert(s1[i as int].0@ == k);
                        }
                    }
                    assert forall|k: Seq<char>| #[trigger] sessions_of(s1).contains_key(k) implies sessions_of(s1)[k] == sessions_of(s0).insert(key, session)[k] by {
                        let j = choose|j: int| 0 <= j < s1.len() && s1[j].0@ == k;
                        lemma_sessions_entry(s1, j);
                        if j != i {
                            lemma_sessions_entry(s0, j);
                        }
                    }
                    assert(sessions_of(s1) =~= sessions_of(s0).insert(key, session));
                }
            },
            None => {
                self.sessions.push((id, session));
                proof {
                    let s1 = self.sessions@;
                    assert forall|k: Seq<char>| #[trigger] sessions_of(s1).contains_key(k) <==> sessions_of(s0).insert(key, session).contains_key(k) by {
                        if sessions_of(s1).contains_key(k) {
                            let j = choose|j: int| 0 <= j < s1.len() && s1[j].0@ == k;
                            if j < s0.len() {
                                assert(s0[j].0@ == k);
                            }
                        }
                        if k != key && sessions_of(s0).contains_key(k) {
                            let j = choose|j: int| 0 <= j < s0.len() && s0[j].0@ == k;
                            assert(s1[j].0@ == k);
                        }
                        if k == key {
                            assert(s1[s0.len() as int].0@ == k);
                        }
                    }
                    assert forall|k: Seq<char>| #[trigger] sessions_of(s1).contains_key(k) implies sessions_of(s1)[k] == sessions_of(s0).insert(key, session)[k] by {
                        let j = choose|j: int| 0 <= j < s1.len() && s1[j].0@ == k;
                        lemma_sessions_entry(s1, j);
                        if j < s0.len() {
                            lemma_sessions_entry(s0, j);
                        }
                    }
                    assert(sessions_of(s1) =~= sessions_of(s0).insert(key, session));
                }
            },
        }
    }
}

impl Default for GameSessionManager {
    fn default() -> (m: Self)
        ensures
            m.wf(),
            m@ == Map::<Seq<char>, GameSession>::empty(),
    {
        Self::new()
    }
}

} // verus!
