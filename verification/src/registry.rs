//! The session registry: it owns every live game, maps codes and users to
//! sessions, enforces that a user is in at most one live session, and
//! routes free-text chat input to the right game's state machine.
//!
//! Exclusive access (`&mut GamesManager`) is the registry's critical
//! section: every check-then-act sequence (join, insert, dispatch) runs
//! under one such borrow, so lookups and mutations cannot interleave.
use vstd::prelude::*;
use vstd::set_lib::{lemma_len_subset, lemma_int_range, set_int_range};
use crate::blackjack::{BlackJack, BjMsg};
use crate::holdem::TexasHoldem;
use crate::mine_battle::{MineBattle, MineMsg};
use crate::pvp::{PvPArena, PvPMsg};
use crate::sludge::{SludgeMonsterBattle, SludgeMsg};
use crate::store::Users;
use crate::rng;

verus! {

pub type GameCode = usize;

/// The tagged union of game variant payloads; a session never changes its
/// variant after creation.
pub enum Games {
    BlackJack(BlackJack),
    TexasHoldem(TexasHoldem),
    SludgeMonsterBattle(SludgeMonsterBattle),
    MineBattle(MineBattle),
    PvP(PvPArena),
}

/// The per-variant well-formedness the registry maintains for every live
/// session.
pub open spec fn game_ok(g: Games) -> bool {
    match g {
        Games::BlackJack(b) => b.wf(),
        Games::TexasHoldem(t) => t.players@.len() <= 10 && t.deck.cards@.len() == 104 - 2
            * t.players@.len(),
        Games::SludgeMonsterBattle(s) => s.player_health > 0,
        Games::MineBattle(b) => b.wf() && b.player_health > 0,
        Games::PvP(a) => {
            &&& a.wf()
            &&& (forall|i: int, j: int|
                0 <= i < j < a.players@.len() ==> (#[trigger] a.players@[i]).user != (
                #[trigger] a.players@[j]).user)
            &&& (a.started ==> a.players@.len() >= 2)
        },
    }
}

/// One live session: its host, the joined participants, and the variant
/// payload.
pub struct GameHandler {
    pub host: u64,
    pub players: Vec<u64>,
    pub game: Games,
}

impl GameHandler {
    /// A user belongs to the session as its host or as a participant.
    pub open spec fn spec_involved(self, user: u64) -> bool {
        self.host == user || self.players@.contains(user)
    }

    pub fn new(host: u64, game: Games) -> (h: GameHandler)
        ensures
            h.host == host,
            h.players@.len() == 0,
            h.game == game,
            forall|u: u64| h.spec_involved(u) ==> u == host,
    {
        GameHandler { host, players: Vec::new(), game }
    }

    pub fn has_player(&self, player: u64) -> (r: bool)
        ensures
            r == self.players@.contains(player),
    {
        let mut i: usize = 0;
        while i < self.players.len()
            invariant
                i <= self.players@.len(),
                forall|j: int| 0 <= j < i ==> self.players@[j] != player,
            decreases self.players@.len() - i,
        {
            if self.players[i] == player {
                return true;
            }
            i = i + 1;
        }
        false
    }

    pub fn add_player(&mut self, player: u64)
        ensures
            final(self).players@ == old(self).players@.push(player),
            final(self).host == old(self).host,
            final(self).game == old(self).game,
    {
        self.players.push(player);
    }

    /// Drop every occurrence of the user from the participant list; the
    /// other participants all stay.
    fn remove_user(&mut self, player: u64)
        ensures
            forall|u: u64|
                final(self).players@.contains(u) == (old(self).players@.contains(u) && u
                    != player),
            final(self).host == old(self).host,
            final(self).game == old(self).game,
    {
        let mut out: Vec<u64> = Vec::new();
        let mut i: usize = 0;
        while i < self.players.len()
            invariant
                i <= self.players@.len(),
                forall|u: u64|
                    out@.contains(u) == (old(self).players@.subrange(0, i as int).contains(u)
                        && u != player),
                self.players@ == old(self).players@,
                self.host == old(self).host,
                self.game == old(self).game,
            decreases self.players@.len() - i,
        {
            let p = self.players[i];
            let ghost prev = out@;
            if p != player {
                out.push(p);
            }
            proof {
                let sub1 = old(self).players@.subrange(0, i + 1);
                let sub0 = old(self).players@.subrange(0, i as int);
                assert(sub1.drop_last() == sub0);
                assert(sub1.last() == p);
                assert forall|u: u64| out@.contains(u) == (sub1.contains(u) && u
                    != player) by {
                    if out@.contains(u) {
                        let k = choose|k: int| 0 <= k < out@.len() && out@[k] == u;
                        if k < prev.len() {
                            assert(prev[k] == u);
                            assert(prev.contains(u));
                            assert(sub0.contains(u));
                            let m = choose|m: int| 0 <= m < sub0.len() && sub0[m] == u;
                            assert(sub1[m] == u);
                        } else {
                            assert(u == p);
                            assert(sub1[sub1.len() - 1] == u);
                        }
                    }
                    if sub1.contains(u) && u != player {
                        let m = choose|m: int| 0 <= m < sub1.len() && sub1[m] == u;
                        if m < sub0.len() {
                            assert(sub0[m] == u);
                            assert(sub0.contains(u));
                            assert(prev.contains(u));
                            let k = choose|k: int| 0 <= k < prev.len() && prev[k] == u;
                            assert(out@[k] == u);
                        } else {
                            assert(u == p);
                            assert(out@.last() == u);
                        }
                    }
                }
            }
            i = i + 1;
        }
        proof {
            assert(old(self).players@.subrange(0, old(self).players@.len() as int) == old(
                self,
            ).players@);
        }
        self.players = out;
    }
}

/// Two sessions share no user, neither as host nor as participant.
pub open spec fn sessions_disjoint(a: GameHandler, b: GameHandler) -> bool {
    forall|u: u64| !(#[trigger] a.spec_involved(u) && #[trigger] b.spec_involved(u))
}

/// A record is sound when its variant is well-formed and, for an arena,
/// every arena participant is a user of this session.
pub open spec fn record_ok(h: GameHandler) -> bool {
    &&& game_ok(h.game)
    &&& match h.game {
        Games::PvP(a) => forall|i: int|
            0 <= i < a.players@.len() ==> h.spec_involved((#[trigger] a.players@[i]).user),
        _ => true,
    }
}

/// The registry invariant over the raw session list.
pub open spec fn wf_records(s: Seq<(GameCode, GameHandler)>) -> bool {
    &&& (forall|i: int, j: int| 0 <= i < j < s.len() ==> (#[trigger] s[i]).0 != (#[trigger] s[j]).0)
    &&& (forall|i: int, j: int|
        0 <= i < j < s.len() ==> sessions_disjoint((#[trigger] s[i]).1, (#[trigger] s[j]).1))
    &&& (forall|i: int| 0 <= i < s.len() ==> record_ok((#[trigger] s[i]).1))
}

/// Removing a session keeps the registry invariant.
proof fn lemma_wf_records_remove(s: Seq<(GameCode, GameHandler)>, i: int)
    requires
        wf_records(s),
        0 <= i < s.len(),
    ensures
        wf_records(s.remove(i)),
{
    let t = s.remove(i);
    assert forall|a: int, b: int| 0 <= a < b < t.len() implies (#[trigger] t[a]).0 != (
    #[trigger] t[b]).0 && sessions_disjoint(t[a].1, t[b].1) by {
        let a2 = if a < i {
            a
        } else {
            a + 1
        };
        let b2 = if b < i {
            b
        } else {
            b + 1
        };
        assert(t[a] == s[a2] && t[b] == s[b2]);
        assert(s[a2].0 != s[b2].0 && sessions_disjoint(s[a2].1, s[b2].1));
    }
    assert forall|a: int| 0 <= a < t.len() implies record_ok((#[trigger] t[a]).1) by {
        let a2 = if a < i {
            a
        } else {
            a + 1
        };
        assert(t[a] == s[a2]);
    }
}

/// Error taxonomy of the join path; none of these is fatal and none leaves
/// a partial state change behind.
#[derive(Clone, Copy, Debug, PartialEq, Eq, Structural)]
pub enum JoinError {
    SessionNotFound,
    AlreadyInSession,
    CapacityExceeded,
    InsufficientFunds,
}

/// A domain-level result of one routed chat line, tagged by variant.
#[derive(Clone, Debug, PartialEq)]
pub enum GameMsg {
    Bj(BjMsg),
    Pvp(PvPMsg),
    Mine(MineMsg),
    Sludge(SludgeMsg),
    Unsupported,
}

/// The single shared registry of live sessions.
pub struct GamesManager {
    pub games: Vec<(GameCode, GameHandler)>,
}

impl GamesManager {
    pub open spec fn wf(self) -> bool {
        wf_records(self.games@)
    }

    pub open spec fn spec_code_exists(self, code: GameCode) -> bool {
        exists|i: int| 0 <= i < self.games@.len() && (#[trigger] self.games@[i]).0 == code
    }

    /// The user is involved in some live session.
    pub open spec fn spec_in_any(self, user: u64) -> bool {
        exists|i: int|
            0 <= i < self.games@.len() && (#[trigger] self.games@[i]).1.spec_involved(user)
    }

    pub fn new() -> (m: GamesManager)
        ensures
            m.wf(),
            m.games@.len() == 0,
    {
        GamesManager { games: Vec::new() }
    }

    /// At any point in time, a user belongs to at most one live session:
    /// any two sessions that both involve the user are the same session.
    pub proof fn lemma_single_session(self, user: u64, i: int, j: int)
        requires
            self.wf(),
            0 <= i < self.games@.len(),
            0 <= j < self.games@.len(),
            self.games@[i].1.spec_involved(user),
            self.games@[j].1.spec_involved(user),
        ensures
            i == j,
    {
        if i < j {
            assert(sessions_disjoint(self.games@[i].1, self.games@[j].1));
        }
        if j < i {
            assert(sessions_disjoint(self.games@[j].1, self.games@[i].1));
        }
    }

    fn find_code(&self, code: GameCode) -> (r: Option<usize>)
        ensures
            match r {
                Option::Some(i) => i < self.games@.len() && self.games@[i as int].0 == code,
                Option::None => !self.spec_code_exists(code),
            },
    {
        let mut i: usize = 0;
        while i < self.games.len()
            invariant
                i <= self.games@.len(),
                forall|j: int| 0 <= j < i ==> (#[trigger] self.games@[j]).0 != code,
            decreases self.games@.len() - i,
        {
            if self.games[i].0 == code {
                return Some(i);
            }
            i = i + 1;
        }
        None
    }

    pub fn code_exists(&self, code: GameCode) -> (r: bool)
        ensures
            r == self.spec_code_exists(code),
    {
        self.find_code(code).is_some()
    }

    /// Draw codes until one is free; after a bounded number of collisions,
    /// fall back to scanning the (smaller-than-the-code-space) session list,
    /// where a free code must exist. Either way the code is fresh.
    pub fn generate_game_code(&self) -> (code: GameCode)
        requires
            self.games@.len() < 100000,
        ensures
            !self.spec_code_exists(code),
            code < 100000,
    {
        let mut tries: u32 = 0;
        while tries < 64
            invariant
                self.games@.len() < 100000,
            decreases 64 - tries,
        {
            let code = rng::roll_u64(0, 99999) as usize;
            if !self.code_exists(code) {
                return code;
            }
            tries = tries + 1;
        }
        // every drawn code collided; scan one more candidate than there
        // are sessions, which by counting cannot all be taken
        let n = self.games.len();
        let mut c: usize = 0;
        while c <= n
            invariant
                n == self.games@.len() < 100000,
                c <= n + 1,
                forall|k: int| 0 <= k < c ==> self.spec_code_exists(#[trigger] (k as usize)),
            decreases n + 1 - c,
        {
            if !self.code_exists(c) {
                return c;
            }
            c = c + 1;
        }
        proof {
            // with every code up to the session count taken, distinct codes
            // would outnumber the sessions holding them: impossible
            let s = self.games@;
            let ni = s.len() as int;
            let codes = s.map_values(|e: (GameCode, GameHandler)| e.0 as int);
            let codeset = codes.to_set();
            codes.lemma_cardinality_of_set();
            let range = set_int_range(0, ni + 1);
            lemma_int_range(0, ni + 1);
            assert forall|x: int| range.contains(x) implies codeset.contains(x) by {
                assert(0 <= x <= ni);
                assert(self.spec_code_exists(x as usize));
                let i = choose|i: int| 0 <= i < s.len() && (#[trigger] s[i]).0 == x as usize;
                assert(codes[i] == x);
                assert(codes.contains(x));
            }
            lemma_len_subset(range, codeset);
        }
        0
    }

    /// Store a session whose users are in no other live session, under a
    /// freshly generated code.
    pub fn insert(&mut self, game: GameHandler) -> (code: GameCode)
        requires
            old(self).wf(),
            old(self).games@.len() < 100000,
            record_ok(game),
            forall|u: u64| #[trigger] game.spec_involved(u) ==> !old(self).spec_in_any(u),
        ensures
            final(self).wf(),
            !old(self).spec_code_exists(code),
            final(self).spec_code_exists(code),
            final(self).games@ == old(self).games@.push((code, game)),
            code < 100000,
    {
        let code = self.generate_game_code();
        let ghost pre = *self;
        self.games.push((code, game));
        proof {
            assert forall|a: int, b: int| 0 <= a < b < self.games@.len() implies (
            #[trigger] self.games@[a]).0 != (#[trigger] self.games@[b]).0
                && sessions_disjoint(self.games@[a].1, self.games@[b].1) by {
                if b < self.games@.len() - 1 {
                    assert(self.games@[a] == pre.games@[a] && self.games@[b] == pre.games@[b]);
                    assert(pre.games@[a].0 != pre.games@[b].0);
                } else {
                    assert(self.games@[a] == pre.games@[a]);
                    if pre.games@[a].0 == code {
                        assert(pre.spec_code_exists(code));
                    }
                    assert forall|u: u64|
                        !(#[trigger] self.games@[a].1.spec_involved(u)
                            && #[trigger] self.games@[b].1.spec_involved(u)) by {
                        if self.games@[b].1.spec_involved(u) {
                            assert(game.spec_involved(u));
                            assert(!pre.spec_in_any(u));
                        }
                    }
                }
            }
            assert forall|a: int| 0 <= a < self.games@.len() implies record_ok(
                (#[trigger] self.games@[a]).1,
            ) by {
                if a < self.games@.len() - 1 {
                    assert(self.games@[a] == pre.games@[a]);
                }
            }
            assert(self.games@[self.games@.len() - 1].0 == code);
        }
        code
    }

    /// Remove the session with the given code, if any.
    pub fn end_game(&mut self, code: GameCode)
        requires
            old(self).wf(),
        ensures
            final(self).wf(),
            !final(self).spec_code_exists(code),
            forall|u: u64|
                final(self).spec_in_any(u) ==> old(self).spec_in_any(u),
            !old(self).spec_code_exists(code) ==> final(self).games@ == old(self).games@,
            old(self).spec_code_exists(code) ==> exists|i: int|
                0 <= i < old(self).games@.len() && (#[trigger] old(self).games@[i]).0 == code
                    && final(self).games@ == old(self).games@.remove(i),
    {
        match self.find_code(code) {
            Some(i) => {
                let ghost pre = *self;
                self.games.remove(i);
                proof {
                    lemma_wf_records_remove(pre.games@, i as int);
                    assert forall|u: u64| self.spec_in_any(u) implies pre.spec_in_any(u) by {
                        let a = choose|a: int|
                            0 <= a < self.games@.len() && (
                            #[trigger] self.games@[a]).1.spec_involved(u);
                        let a2 = if a < i as int {
                            a
                        } else {
                            a + 1
                        };
                        assert(pre.games@[a2].1.spec_involved(u));
                    }
                    if self.spec_code_exists(code) {
                        let a = choose|a: int|
                            0 <= a < self.games@.len() && (#[trigger] self.games@[a]).0 == code;
                        let a2 = if a < i as int {
                            a
                        } else {
                            a + 1
                        };
                        assert(pre.games@[a2].0 == code);
                        if a2 != i as int {
                            assert(pre.games@[i as int].0 != pre.games@[a2].0);
                        }
                    }
                }
            },
            None => {
                proof {
                    assert forall|u: u64| self.spec_in_any(u) implies old(self).spec_in_any(
                        u,
                    ) by {}
                }
            },
        }
    }

    /// The code of the session the user is in: participant lists first,
    /// then the host fallback, as a host who never joined as a participant
    /// is still in their session.
    pub fn get_player_game(&self, player: u64) -> (r: Option<GameCode>)
        requires
            self.wf(),
        ensures
            match r {
                Option::Some(code) => exists|i: int|
                    0 <= i < self.games@.len() && (#[trigger] self.games@[i]).0 == code
                        && self.games@[i].1.spec_involved(player),
                Option::None => !self.spec_in_any(player),
            },
    {
        match self.find_player_playing(player) {
            Some(code) => Some(code),
            None => {
                match self.find_player_host(player) {
                    Some(code) => Some(code),
                    None => None,
                }
            },
        }
    }

    /// The code of the session in which the user is a participant.
    pub fn find_player_playing(&self, player: u64) -> (r: Option<GameCode>)
        ensures
            match r {
                Option::Some(code) => exists|i: int|
                    0 <= i < self.games@.len() && (#[trigger] self.games@[i]).0 == code
                        && self.games@[i].1.players@.contains(player),
                Option::None => forall|i: int|
                    0 <= i < self.games@.len() ==> !(
                    #[trigger] self.games@[i]).1.players@.contains(player),
            },
    {
        let mut i: usize = 0;
        while i < self.games.len()
            invariant
                i <= self.games@.len(),
                forall|j: int|
                    0 <= j < i ==> !(#[trigger] self.games@[j]).1.players@.contains(player),
            decreases self.games@.len() - i,
        {
            if self.games[i].1.has_player(player) {
                return Some(self.games[i].0);
            }
            i = i + 1;
        }
        None
    }

    /// Whether the session can take another participant: only Texas
    /// Hold'em tables and waiting arenas ever accept one; the other
    /// variants are single-player and reject joining by design.
    pub fn can_join(&self, game_code: GameCode) -> (r: bool)
        requires
            self.wf(),
            self.spec_code_exists(game_code),
        ensures
            forall|i: int|
                0 <= i < self.games@.len() && (#[trigger] self.games@[i]).0 == game_code ==> r
                    == (match self.games@[i].1.game {
                    Games::TexasHoldem(t) => t.players@.len() < 10 && t.round == 0,
                    Games::PvP(a) => a.players@.len() < a.max_players && !a.started,
                    _ => false,
                }),
    {
        let i = self.find_code(game_code).unwrap();
        match &self.games[i].1.game {
            Games::TexasHoldem(th) => th.can_join(),
            Games::PvP(a) => a.can_join(),
            _ => false,
        }
    }

    /// The hole cards a participant holds, for variants with hidden hands.
    pub fn get_hand(&self, game_code: GameCode, player: u64) -> (r: Option<
        Vec<crate::cards::Card>,
    >)
        requires
            self.wf(),
            self.spec_code_exists(game_code),
        ensures
            forall|i: int|
                0 <= i < self.games@.len() && (#[trigger] self.games@[i]).0 == game_code ==> (
                match self.games@[i].1.game {
                    Games::TexasHoldem(t) => (r is Some <==> exists|j: int|
                        0 <= j < t.players@.len() && (#[trigger] t.players@[j]).user == player),
                    _ => r is None,
                }),
    {
        let i = self.find_code(game_code).unwrap();
        match &self.games[i].1.game {
            Games::TexasHoldem(th) => th.get_hand(player),
            _ => None,
        }
    }

    /// The code of the session the user hosts.
    pub fn find_player_host(&self, player: u64) -> (r: Option<GameCode>)
        ensures
            match r {
                Option::Some(code) => exists|i: int|
                    0 <= i < self.games@.len() && (#[trigger] self.games@[i]).0 == code
                        && self.games@[i].1.host == player,
                Option::None => forall|i: int|
                    0 <= i < self.games@.len() ==> (#[trigger] self.games@[i]).1.host != player,
            },
    {
        let mut i: usize = 0;
        while i < self.games.len()
            invariant
                i <= self.games@.len(),
                forall|j: int| 0 <= j < i ==> (#[trigger] self.games@[j]).1.host != player,
            decreases self.games@.len() - i,
        {
            if self.games[i].1.host == player {
                return Some(self.games[i].0);
            }
            i = i + 1;
        }
        None
    }

    /// Create a session for a host who is in no other live session; the
    /// shell has already validated and escrowed the stake.
    pub fn create_session(&mut self, host: u64, game: Games) -> (r: Result<GameCode, JoinError>)
        requires
            old(self).wf(),
            new_record_ok(host, game),
        ensures
            final(self).wf(),
            r is Err ==> *final(self) == *old(self) && (r == Result::<
                GameCode,
                JoinError,
            >::Err(JoinError::AlreadyInSession) || r == Result::<GameCode, JoinError>::Err(
                JoinError::CapacityExceeded,
            )),
            r matches Result::Ok(code) ==> !old(self).spec_code_exists(code)
                && final(self).spec_code_exists(code) && final(self).spec_in_any(host),
            r matches Result::Ok(code) ==> final(self).games@.len() == old(self).games@.len()
                + 1 && final(self).games@.last().0 == code && final(self).games@.last().1.host
                == host && final(self).games@.last().1.game == game
                && final(self).games@.last().1.players@.len() == 0
                && final(self).games@.drop_last() == old(self).games@,
            old(self).spec_in_any(host) ==> r == Result::<GameCode, JoinError>::Err(
                JoinError::AlreadyInSession,
            ),
            !old(self).spec_in_any(host) && old(self).games@.len() < 100000 ==> r is Ok,
    {
        if self.get_player_game(host).is_some() {
            return Err(JoinError::AlreadyInSession);
        }
        if !(self.games.len() < 100000) {
            return Err(JoinError::CapacityExceeded);
        }
        let handler = GameHandler::new(host, game);
        let code = self.insert(handler);
        proof {
            assert(self.games@.last().1.spec_involved(host));
        }
        Ok(code)
    }

    /// Join a live session: the whole check-then-act sequence (session
    /// exists, user free, session joinable, stake covered) runs under this
    /// one exclusive borrow, and a rejected join changes nothing.
    pub fn join_session(&mut self, users: &mut Users, code: GameCode, user: u64) -> (r: Result<
        (),
        JoinError,
    >)
        requires
            old(self).wf(),
            old(users).wf(),
        ensures
            final(self).wf(),
            final(users).wf(),
            r is Err ==> final(self).games@ == old(self).games@ && *final(users) == *old(
                users,
            ),
            !old(self).spec_code_exists(code) ==> r == Result::<(), JoinError>::Err(
                JoinError::SessionNotFound,
            ),
            old(self).spec_in_any(user) && old(self).spec_code_exists(code) ==> r == Result::<
                (),
                JoinError,
            >::Err(JoinError::AlreadyInSession),
            r is Ok ==> final(self).spec_in_any(user) && final(self).games@.len() == old(
                self,
            ).games@.len(),
            r is Ok ==> (forall|i: int|
                0 <= i < old(self).games@.len() && (#[trigger] old(self).games@[i]).0 == code
                    ==> final(users).spec_balance(user) == old(users).spec_balance(user) - (
                match old(self).games@[i].1.game {
                    Games::PvP(a) => a.stake,
                    Games::TexasHoldem(t) => t.buy_in,
                    _ => 0u64,
                })),
            (old(self).spec_code_exists(code) && !old(self).spec_in_any(user) && (forall|i: int|
                0 <= i < old(self).games@.len() && (#[trigger] old(self).games@[i]).0 == code
                    ==> (match old(self).games@[i].1.game {
                    Games::PvP(a) => a.players@.len() < a.max_players && !a.started
                        && a.players@.len() < 0xffff && a.total_players < u64::MAX && old(
                        users,
                    ).spec_balance(user) >= a.stake,
                    Games::TexasHoldem(t) => t.players@.len() < 10 && t.round == 0 && old(
                        users,
                    ).spec_balance(user) >= t.buy_in,
                    _ => false,
                }))) ==> r is Ok,
    {
        let i = match self.find_code(code) {
            Some(i) => i,
            None => {
                return Err(JoinError::SessionNotFound);
            },
        };
        if self.get_player_game(user).is_some() {
            return Err(JoinError::AlreadyInSession);
        }
        if !self.can_join(code) {
            return Err(JoinError::CapacityExceeded);
        }
        let ghost pre = *self;
        let rec = self.games.remove(i);
        let rcode = rec.0;
        let handler = rec.1;
        let host = handler.host;
        let players = handler.players;
        let game = handler.game;
        let new_game: Games;
        match game {
            Games::PvP(mut a) => {
                if !(a.players.len() < 0xffff) || !(a.total_players < u64::MAX) {
                    let h = GameHandler { host, players, game: Games::PvP(a) };
                    self.games.insert(i, (rcode, h));
                    proof {
                        assert(self.games@ =~= pre.games@);
                    }
                    return Err(JoinError::CapacityExceeded);
                }
                if !users.debit(user, a.stake) {
                    let h = GameHandler { host, players, game: Games::PvP(a) };
                    self.games.insert(i, (rcode, h));
                    proof {
                        assert(self.games@ =~= pre.games@);
                    }
                    return Err(JoinError::InsufficientFunds);
                }
                a.add_player(user);
                new_game = Games::PvP(a);
            },
            Games::TexasHoldem(mut t) => {
                if !users.debit(user, t.buy_in) {
                    let h = GameHandler { host, players, game: Games::TexasHoldem(t) };
                    self.games.insert(i, (rcode, h));
                    proof {
                        assert(self.games@ =~= pre.games@);
                    }
                    return Err(JoinError::InsufficientFunds);
                }
                t.add_player(user);
                new_game = Games::TexasHoldem(t);
            },
            other => {
                let h = GameHandler { host, players, game: other };
                self.games.insert(i, (rcode, h));
                proof {
                    assert(self.games@ =~= pre.games@);
                }
                return Err(JoinError::CapacityExceeded);
            },
        }
        let mut handler = GameHandler { host, players, game: new_game };
        handler.add_player(user);
        self.games.insert(i, (rcode, handler));
        proof {
            let s0 = pre.games@;
            let ii = i as int;
            let posti = self.games@[ii];
            assert(self.games@ =~= s0.update(ii, posti));
            assert(posti.0 == s0[ii].0);
            assert forall|v: u64| #[trigger] posti.1.spec_involved(v) implies s0[ii].1
                .spec_involved(v) || v == user by {
                if posti.1.players@.contains(v) && v != user {
                    let k = choose|k: int|
                        0 <= k < posti.1.players@.len() && posti.1.players@[k] == v;
                    assert(k < posti.1.players@.len() - 1);
                    assert(s0[ii].1.players@[k] == v);
                }
            }
            assert forall|j: int| 0 <= j < s0.len() && j != ii implies !(
            #[trigger] s0[j].1.spec_involved(user)) by {
                if s0[j].1.spec_involved(user) {
                    assert(pre.spec_in_any(user));
                }
            }
            assert(!s0[ii].1.spec_involved(user));
            assert(record_ok(s0[ii].1));
            match posti.1.game {
                Games::PvP(a2) => {
                    match s0[ii].1.game {
                        Games::PvP(a1) => {
                            assert(a2.players@ == a1.players@.push(
                                crate::pvp::Player { user, health: a1.base_health },
                            ));
                            assert forall|x: int, y: int|
                                0 <= x < y < a2.players@.len() implies (
                            #[trigger] a2.players@[x]).user != (
                            #[trigger] a2.players@[y]).user by {
                                if y < a2.players@.len() - 1 {
                                    assert(a2.players@[x] == a1.players@[x] && a2.players@[y]
                                        == a1.players@[y]);
                                } else {
                                    assert(a2.players@[x] == a1.players@[x]);
                                    assert(s0[ii].1.spec_involved(a1.players@[x].user));
                                }
                            }
                            assert forall|k: int| 0 <= k < a2.players@.len() implies posti.1
                                .spec_involved((#[trigger] a2.players@[k]).user) by {
                                if k < a2.players@.len() - 1 {
                                    assert(s0[ii].1.spec_involved(a1.players@[k].user));
                                    assert(posti.1.players@.drop_last() == s0[ii].1.players@);
                                    if s0[ii].1.players@.contains(a1.players@[k].user) {
                                        let m = choose|m: int|
                                            0 <= m < s0[ii].1.players@.len() && s0[ii].1
                                                .players@[m] == a1.players@[k].user;
                                        assert(posti.1.players@[m] == a1.players@[k].user);
                                    }
                                } else {
                                    assert(posti.1.players@.last() == user);
                                }
                            }
                            assert(record_ok(posti.1));
                        },
                        _ => {
                            assert(false);
                        },
                    }
                },
                Games::TexasHoldem(t2) => {
                    assert(record_ok(posti.1));
                },
                _ => {
                    assert(false);
                },
            }
            lemma_wf_records_member_change(s0, ii, self.games@, user);
            assert(posti.1.players@.last() == user);
            assert(self.games@[ii].1.spec_involved(user));
        }
        Ok(())
    }

    /// Route one chat line to the sender's live session, if any: the record
    /// is taken out for the duration of the call (the registry's exclusive
    /// handout), the variant's state machine runs, an eliminated participant
    /// is dropped from the session, and a terminated session is removed.
    /// `None` means the sender has no live session or the line is not a
    /// command of it.
    pub fn handle_chat_input(
        &mut self,
        users: &mut Users,
        user: u64,
        text: &str,
        mention: Option<u64>,
    ) -> (r: Option<(GameMsg, bool)>)
        requires
            old(self).wf(),
            old(users).wf(),
        ensures
            final(self).wf(),
            final(users).wf(),
            !old(self).spec_in_any(user) ==> r is None && final(self).games@ == old(
                self,
            ).games@ && *final(users) == *old(users),
            r is None ==> final(self).games@ == old(self).games@ && *final(users) == *old(
                users,
            ),
            old(self).spec_in_any(user) ==> (r is Some || exists|ix: int|
                0 <= ix < old(self).games@.len() && (#[trigger] old(
                    self,
                ).games@[ix]).1.spec_involved(user) && old(self).games@[ix].1.game is PvP),
            r matches Option::Some((m, done)) ==> exists|ix: int|
                0 <= ix < old(self).games@.len() && (#[trigger] old(
                    self,
                ).games@[ix]).1.spec_involved(user) && (match m {
                    GameMsg::Bj(_) => old(self).games@[ix].1.game is BlackJack,
                    GameMsg::Pvp(_) => old(self).games@[ix].1.game is PvP,
                    GameMsg::Mine(_) => old(self).games@[ix].1.game is MineBattle,
                    GameMsg::Sludge(_) => old(self).games@[ix].1.game is SludgeMonsterBattle,
                    GameMsg::Unsupported => old(self).games@[ix].1.game is TexasHoldem,
                }),
            r matches Option::Some((m, done)) && done ==> final(self).games@.len() == old(
                self,
            ).games@.len() - 1 && !final(self).spec_in_any(user),
            r matches Option::Some((m, done)) && !done ==> final(self).games@.len() == old(
                self,
            ).games@.len(),
    {
        let code = match self.get_player_game(user) {
            Some(c) => c,
            None => {
                return None;
            },
        };
        let i = match self.find_code(code) {
            Some(i) => i,
            None => {
                return None;
            },
        };
        proof {
            // the session the lookup named is the one the code search found
            let i0 = choose|i0: int|
                0 <= i0 < self.games@.len() && (#[trigger] self.games@[i0]).0 == code && self
                    .games@[i0].1.spec_involved(user);
            if i0 != i as int {
                if i0 < i as int {
                    assert(self.games@[i0].0 != self.games@[i as int].0);
                } else {
                    assert(self.games@[i as int].0 != self.games@[i0].0);
                }
            }
            assert(self.games@[i as int].1.spec_involved(user));
        }
        let ghost pre = *self;
        let rec = self.games.remove(i);
        proof {
            lemma_wf_records_remove(pre.games@, i as int);
        }
        let rcode = rec.0;
        let h = rec.1;
        let host = h.host;
        let players = h.players;
        let game = h.game;
        let out_msg: Option<GameMsg>;
        let ended: bool;
        let new_game: Games;
        let mut dropped: Option<u64> = None;
        match game {
            Games::BlackJack(mut bj) => {
                let (m, end) = bj.handle_message(users, user, text);
                out_msg = Some(GameMsg::Bj(m));
                ended = end;
                new_game = Games::BlackJack(bj);
            },
            Games::SludgeMonsterBattle(mut s) => {
                let (m, end) = s.handle_message(users, user, text);
                out_msg = Some(GameMsg::Sludge(m));
                ended = end;
                new_game = Games::SludgeMonsterBattle(s);
            },
            Games::MineBattle(mut b) => {
                let (m, end) = b.handle_message(users, user, text);
                out_msg = Some(GameMsg::Mine(m));
                ended = end;
                new_game = Games::MineBattle(b);
            },
            Games::TexasHoldem(t) => {
                out_msg = Some(GameMsg::Unsupported);
                ended = false;
                new_game = Games::TexasHoldem(t);
            },
            Games::PvP(mut a) => {
                let res = if a.is_running() {
                    a.handle_message(users, user, text, mention)
                } else {
                    a.handle_prestart_message(users, user, text, mention)
                };
                match res {
                    Some((m, end, rem)) => {
                        if !end {
                            if let Some(ru) = rem {
                                if a.contains_player(ru) {
                                    if a.players.len() >= 2 && (!a.is_running()
                                        || a.players.len() >= 3) {
                                        a.remove_player(ru);
                                        dropped = Some(ru);
                                    }
                                } else {
                                    dropped = Some(ru);
                                }
                            }
                        }
                        out_msg = Some(GameMsg::Pvp(m));
                        ended = end;
                    },
                    None => {
                        out_msg = None;
                        ended = false;
                    },
                }
                new_game = Games::PvP(a);
            },
        }
        if ended {
            proof {
                // the removed session was the only one the sender was in, so
                // the sender is now in none
                assert forall|a: int| 0 <= a < self.games@.len() implies !((
                #[trigger] self.games@[a]).1.spec_involved(user)) by {
                    let a2 = if a < i as int {
                        a
                    } else {
                        a + 1
                    };
                    assert(self.games@[a] == pre.games@[a2]);
                    if pre.games@[a2].1.spec_involved(user) {
                        if a2 < i as int {
                            assert(sessions_disjoint(pre.games@[a2].1, pre.games@[i as int].1));
                        } else {
                            assert(sessions_disjoint(pre.games@[i as int].1, pre.games@[a2].1));
                        }
                    }
                }
            }
            return match out_msg {
                Some(m) => Some((m, true)),
                None => None,
            };
        }
        let mut handler = GameHandler { host, players, game: new_game };
        if let Some(ru) = dropped {
            handler.remove_user(ru);
        }
        let ghost hfinal = handler;
        self.games.insert(i, (rcode, handler));
        proof {
            let oldrec = pre.games@[i as int].1;
            assert(record_ok(oldrec));
            assert forall|v: u64| #[trigger] hfinal.spec_involved(v) implies oldrec
                .spec_involved(v) by {}
            match hfinal.game {
                Games::PvP(a2) => {
                    assert forall|k: int| 0 <= k < a2.players@.len() implies hfinal
                        .spec_involved((#[trigger] a2.players@[k]).user) by {
                        let pu = a2.players@[k].user;
                        assert(a2.spec_has_player(pu));
                        match oldrec.game {
                            Games::PvP(a0) => {
                                assert(a0.spec_has_player(pu));
                                assert(oldrec.spec_involved(pu));
                                if pu != hfinal.host {
                                    assert(oldrec.players@.contains(pu));
                                    match dropped {
                                        Some(ru) => {
                                            assert(!a2.spec_has_player(ru));
                                            assert(pu != ru);
                                            assert(hfinal.players@.contains(pu));
                                        },
                                        None => {
                                            assert(hfinal.players@ == oldrec.players@);
                                        },
                                    }
                                }
                            },
                            _ => {
                                assert(false);
                            },
                        }
                    }
                },
                _ => {},
            }
            assert(record_ok(hfinal));
            assert(self.games@ =~= pre.games@.update(i as int, (rcode, hfinal)));
            // the record's host belongs to this session alone
            assert(pre.games@[i as int].1.spec_involved(host));
            assert forall|j: int| 0 <= j < pre.games@.len() && j != i as int implies !((
            #[trigger] pre.games@[j]).1.spec_involved(host)) by {
                if pre.games@[j].1.spec_involved(host) {
                    if j < i as int {
                        assert(sessions_disjoint(pre.games@[j].1, pre.games@[i as int].1));
                    } else {
                        assert(sessions_disjoint(pre.games@[i as int].1, pre.games@[j].1));
                    }
                }
            }
            lemma_wf_records_member_change(pre.games@, i as int, self.games@, host);
            if out_msg is None {
                // the arena answered nothing and nothing changed: the record
                // went back exactly as it came out
                assert(hfinal == pre.games@[i as int].1);
                assert(self.games@ =~= pre.games@);
            }
        }
        match out_msg {
            Some(m) => Some((m, false)),
            None => None,
        }
    }
}

/// Putting a session back (same code, no new users, sound payload) after it
/// was taken out for one input keeps the registry invariant.
proof fn lemma_wf_records_reinsert(
    pre: Seq<(GameCode, GameHandler)>,
    i: int,
    h: GameHandler,
    code: GameCode,
)
    requires
        wf_records(pre),
        0 <= i < pre.len(),
        code == pre[i].0,
        forall|v: u64| #[trigger] h.spec_involved(v) ==> pre[i].1.spec_involved(v),
        record_ok(h),
    ensures
        wf_records(pre.remove(i).push((code, h))),
{
    lemma_wf_records_remove(pre, i);
    let t = pre.remove(i);
    let post = t.push((code, h));
    assert forall|a: int, b: int| 0 <= a < b < post.len() implies (#[trigger] post[a]).0 != (
    #[trigger] post[b]).0 && sessions_disjoint(post[a].1, post[b].1) by {
        if b < post.len() - 1 {
            assert(post[a] == t[a] && post[b] == t[b]);
            assert(t[a].0 != t[b].0 && sessions_disjoint(t[a].1, t[b].1));
        } else {
            let a2 = if a < i {
                a
            } else {
                a + 1
            };
            assert(post[a] == pre[a2]);
            if pre[a2].0 == code {
                if a2 < i {
                    assert(pre[a2].0 != pre[i].0);
                } else {
                    assert(pre[i].0 != pre[a2].0);
                }
            }
            assert forall|v: u64|
                !(#[trigger] post[a].1.spec_involved(v)
                    && #[trigger] post[b].1.spec_involved(v)) by {
                if post[b].1.spec_involved(v) && post[a].1.spec_involved(v) {
                    assert(pre[i].1.spec_involved(v));
                    if a2 < i {
                        assert(sessions_disjoint(pre[a2].1, pre[i].1));
                    } else {
                        assert(sessions_disjoint(pre[i].1, pre[a2].1));
                    }
                }
            }
        }
    }
    assert forall|a: int| 0 <= a < post.len() implies record_ok((#[trigger] post[a]).1) by {
        if a < post.len() - 1 {
            assert(post[a] == t[a]);
            assert(record_ok(t[a].1));
        }
    }
}

/// What a freshly created record must satisfy: a sound variant whose arena
/// (if it is one) seats only the host so far.
pub open spec fn new_record_ok(host: u64, game: Games) -> bool {
    &&& game_ok(game)
    &&& match game {
        Games::PvP(a) => forall|i: int|
            0 <= i < a.players@.len() ==> (#[trigger] a.players@[i]).user == host,
        _ => true,
    }
}

/// Changing one record so that it involves at most its old users plus one
/// user involved nowhere else keeps the registry invariant.
proof fn lemma_wf_records_member_change(
    pre: Seq<(GameCode, GameHandler)>,
    i: int,
    post: Seq<(GameCode, GameHandler)>,
    u: u64,
)
    requires
        wf_records(pre),
        0 <= i < pre.len(),
        post.len() == pre.len(),
        forall|j: int| 0 <= j < post.len() && j != i ==> post[j] == pre[j],
        post[i].0 == pre[i].0,
        forall|v: u64|
            #[trigger] post[i].1.spec_involved(v) ==> pre[i].1.spec_involved(v) || v == u,
        record_ok(post[i].1),
        forall|j: int| 0 <= j < pre.len() && j != i ==> !(#[trigger] pre[j].1.spec_involved(u)),
    ensures
        wf_records(post),
{
    assert forall|a: int, b: int| 0 <= a < b < post.len() implies (#[trigger] post[a]).0 != (
    #[trigger] post[b]).0 && sessions_disjoint(post[a].1, post[b].1) by {
        assert(pre[a].0 != pre[b].0 && sessions_disjoint(pre[a].1, pre[b].1));
        if a == i || b == i {
            let o = if a == i {
                b
            } else {
                a
            };
            assert(post[o] == pre[o]);
            assert forall|v: u64|
                !(#[trigger] post[a].1.spec_involved(v)
                    && #[trigger] post[b].1.spec_involved(v)) by {
                if post[i].1.spec_involved(v) && post[o].1.spec_involved(v) {
                    if v == u {
                        assert(!pre[o].1.spec_involved(u));
                    } else {
                        assert(pre[i].1.spec_involved(v));
                        if i < o {
                            assert(sessions_disjoint(pre[i].1, pre[o].1));
                        } else {
                            assert(sessions_disjoint(pre[o].1, pre[i].1));
                        }
                    }
                }
            }
        }
    }
    assert forall|a: int| 0 <= a < post.len() implies record_ok((#[trigger] post[a]).1) by {
        if a != i {
            assert(post[a] == pre[a]);
        }
    }
}

} // verus!
