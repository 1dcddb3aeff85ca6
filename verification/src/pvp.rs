//! The PvP arena variant: a host opens an arena for a stake, participants
//! join, and turn-based attacks (bare-handed, weapon, or spell tome) run
//! until one participant remains and takes the pot.
use vstd::prelude::*;
use vstd::string::{StrSliceExecFns, StringSliceAdditionalSpecFns};
use crate::items::InventoryItem;
use crate::store::{Users, sat64};
use crate::rng;

verus! {

/// Arena configuration flags; for repeated flags of one kind the last wins.
#[derive(Clone, Copy, Debug, PartialEq, Eq, Structural)]
pub enum PvPModFlag {
    NoItem,
    MaxPlayers(u64),
    CustomStartHealth(u32),
    CustomMaxHealth(u32),
    DamageRange(u32, u32),
}

#[derive(Clone, Copy, Debug, PartialEq, Eq, Structural)]
pub struct Player {
    pub user: u64,
    pub health: u32,
}

pub open spec fn spec_items_enabled(flags: Seq<PvPModFlag>) -> bool
    decreases flags.len(),
{
    if flags.len() == 0 {
        true
    } else if flags.last() is NoItem {
        false
    } else {
        spec_items_enabled(flags.drop_last())
    }
}

pub open spec fn spec_max_players(flags: Seq<PvPModFlag>) -> u64
    decreases flags.len(),
{
    if flags.len() == 0 {
        2
    } else {
        match flags.last() {
            PvPModFlag::MaxPlayers(n) => n,
            _ => spec_max_players(flags.drop_last()),
        }
    }
}

pub open spec fn spec_base_health(flags: Seq<PvPModFlag>) -> u32
    decreases flags.len(),
{
    if flags.len() == 0 {
        100
    } else {
        match flags.last() {
            PvPModFlag::CustomStartHealth(h) => h,
            _ => spec_base_health(flags.drop_last()),
        }
    }
}

pub open spec fn spec_max_health(flags: Seq<PvPModFlag>) -> u32
    decreases flags.len(),
{
    if flags.len() == 0 {
        100
    } else {
        match flags.last() {
            PvPModFlag::CustomMaxHealth(h) => h,
            _ => spec_max_health(flags.drop_last()),
        }
    }
}

pub open spec fn spec_damage_range(flags: Seq<PvPModFlag>) -> (u32, u32)
    decreases flags.len(),
{
    if flags.len() == 0 {
        (0, 10)
    } else {
        match flags.last() {
            PvPModFlag::DamageRange(lo, hi) => if lo <= hi {
                (lo, hi)
            } else {
                // an inverted range cannot be drawn from; it is ignored
                spec_damage_range(flags.drop_last())
            },
            _ => spec_damage_range(flags.drop_last()),
        }
    }
}

/// A running or waiting arena.
pub struct PvPArena {
    pub stake: u64,
    pub host: u64,
    pub players: Vec<Player>,
    pub turn: u16,
    pub started: bool,
    pub max_players: u64,
    pub max_health: u32,
    pub base_health: u32,
    pub damage_lo: u32,
    pub damage_hi: u32,
    pub enable_items: bool,
    pub total_players: u64,
}

impl PvPArena {
    /// The arena's invariant: the turn pointer always indexes a present
    /// participant, the damage range is drawable, and no health exceeds the
    /// configured cap (or the starting health, when that was configured
    /// above the cap).
    pub open spec fn wf(self) -> bool {
        &&& self.players@.len() >= 1
        &&& (self.turn as int) < self.players@.len()
        &&& self.players@.len() <= 0xffff
        &&& self.damage_lo <= self.damage_hi
        &&& forall|i: int|
            0 <= i < self.players@.len() ==> (#[trigger] self.players@[i]).health
                <= self.max_health || self.players@[i].health <= self.base_health
    }

    pub open spec fn spec_has_player(self, user: u64) -> bool {
        exists|i: int| 0 <= i < self.players@.len() && (#[trigger] self.players@[i]).user == user
    }

    /// Open an arena: the host is its first participant at starting health,
    /// and the flags configure it, the last flag of each kind winning.
    pub fn new(host: u64, stake: u64, flags: Vec<PvPModFlag>) -> (a: PvPArena)
        ensures
            a.wf(),
            a.stake == stake,
            a.host == host,
            a.players@.len() == 1,
            a.players@[0].user == host,
            a.players@[0].health == spec_base_health(flags@),
            a.turn == 0,
            !a.started,
            a.max_players == spec_max_players(flags@),
            a.max_health == spec_max_health(flags@),
            a.base_health == spec_base_health(flags@),
            a.damage_lo == spec_damage_range(flags@).0,
            a.damage_hi == spec_damage_range(flags@).1,
            a.damage_lo <= a.damage_hi,
            a.enable_items == spec_items_enabled(flags@),
            a.total_players == 1,
    {
        let mut enable_items = true;
        let mut max_players: u64 = 2;
        let mut max_health: u32 = 100;
        let mut base_health: u32 = 100;
        let mut damage_lo: u32 = 0;
        let mut damage_hi: u32 = 10;
        let mut i: usize = 0;
        while i < flags.len()
            invariant
                i <= flags@.len(),
                enable_items == spec_items_enabled(flags@.subrange(0, i as int)),
                max_players == spec_max_players(flags@.subrange(0, i as int)),
                base_health == spec_base_health(flags@.subrange(0, i as int)),
                max_health == spec_max_health(flags@.subrange(0, i as int)),
                damage_lo == spec_damage_range(flags@.subrange(0, i as int)).0,
                damage_hi == spec_damage_range(flags@.subrange(0, i as int)).1,
                damage_lo <= damage_hi,
            decreases flags@.len() - i,
        {
            proof {
                assert(flags@.subrange(0, i + 1).drop_last() == flags@.subrange(0, i as int));
                assert(flags@.subrange(0, i + 1).last() == flags@[i as int]);
            }
            match flags[i] {
                PvPModFlag::NoItem => {
                    enable_items = false;
                },
                PvPModFlag::MaxPlayers(players) => {
                    max_players = players;
                },
                PvPModFlag::CustomStartHealth(health) => {
                    base_health = health;
                },
                PvPModFlag::CustomMaxHealth(health) => {
                    max_health = health;
                },
                PvPModFlag::DamageRange(lo, hi) => {
                    // an inverted range cannot be drawn from; keep the
                    // previous drawable one
                    if lo <= hi {
                        damage_lo = lo;
                        damage_hi = hi;
                    }
                },
            }
            i = i + 1;
        }
        proof {
            assert(flags@.subrange(0, flags@.len() as int) == flags@);
        }
        let mut players: Vec<Player> = Vec::new();
        players.push(Player { user: host, health: base_health });
        PvPArena {
            stake,
            host,
            players,
            turn: 0,
            started: false,
            max_players,
            max_health,
            base_health,
            damage_lo,
            damage_hi,
            enable_items,
            total_players: 1,
        }
    }

    /// A joining participant enters at the starting health.
    pub fn add_player(&mut self, user: u64)
        requires
            old(self).wf(),
            old(self).players@.len() < 0xffff,
            old(self).total_players < u64::MAX,
        ensures
            final(self).wf(),
            final(self).players@ == old(self).players@.push(
                Player { user, health: old(self).base_health },
            ),
            final(self).total_players == old(self).total_players + 1,
            final(self).stake == old(self).stake,
            final(self).turn == old(self).turn,
            final(self).started == old(self).started,
            final(self).host == old(self).host,
    {
        self.players.push(Player { user, health: self.base_health });
        self.total_players = self.total_players + 1;
    }

    /// Index of the first occurrence of a participant, when present.
    fn find_player(&self, user: u64) -> (r: Option<usize>)
        ensures
            match r {
                Option::Some(i) => i < self.players@.len() && self.players@[i as int].user
                    == user && forall|j: int|
                    0 <= j < i ==> (#[trigger] self.players@[j]).user != user,
                Option::None => !self.spec_has_player(user),
            },
    {
        let mut i: usize = 0;
        while i < self.players.len()
            invariant
                i <= self.players@.len(),
                forall|j: int| 0 <= j < i ==> (#[trigger] self.players@[j]).user != user,
            decreases self.players@.len() - i,
        {
            if self.players[i].user == user {
                return Some(i);
            }
            i = i + 1;
        }
        None
    }

    /// Remove a participant's first entry; the turn pointer is pulled back
    /// into range so it never dangles.
    pub fn remove_player(&mut self, user: u64)
        requires
            old(self).wf(),
            old(self).spec_has_player(user),
            old(self).players@.len() >= 2,
        ensures
            final(self).wf(),
            exists|i: int|
                0 <= i < old(self).players@.len() && (#[trigger] old(self).players@[i]).user
                    == user && final(self).players@ == old(self).players@.remove(i),
            final(self).players@.len() == old(self).players@.len() - 1,
            final(self).stake == old(self).stake,
            final(self).total_players == old(self).total_players,
            final(self).started == old(self).started,
            final(self).host == old(self).host,
            final(self).enable_items == old(self).enable_items,
            final(self).max_health == old(self).max_health,
            final(self).base_health == old(self).base_health,
            ({
                let pre_players = old(self).players@;
                let post_players = final(self).players@;
                (forall|a: int, b: int|
                    0 <= a < b < pre_players.len() ==> (#[trigger] pre_players[a]).user != (
                    #[trigger] pre_players[b]).user) ==> (!final(self).spec_has_player(user) && (
                forall|a: int, b: int|
                    0 <= a < b < post_players.len() ==> (#[trigger] post_players[a]).user != (
                    #[trigger] post_players[b]).user))
            }),
            forall|u: u64|
                final(self).spec_has_player(u) ==> old(self).spec_has_player(u),
    {
        let i = self.find_player(user).unwrap();
        let ghost pre = *self;
        self.players.remove(i);
        if !((self.turn as usize) < self.players.len()) {
            self.turn = 0;
        }
        proof {
            let s = pre.players@;
            let t = self.players@;
            assert(t == s.remove(i as int));
            assert forall|u: u64| self.spec_has_player(u) implies pre.spec_has_player(u) by {
                let k = choose|k: int| 0 <= k < t.len() && (#[trigger] t[k]).user == u;
                let k2 = if k < i as int {
                    k
                } else {
                    k + 1
                };
                assert(s[k2].user == u);
            }
            if forall|a: int, b: int|
                0 <= a < b < s.len() ==> (#[trigger] s[a]).user != (#[trigger] s[b]).user {
                assert forall|a: int, b: int| 0 <= a < b < t.len() implies (
                #[trigger] t[a]).user != (#[trigger] t[b]).user by {
                    let a2 = if a < i as int {
                        a
                    } else {
                        a + 1
                    };
                    let b2 = if b < i as int {
                        b
                    } else {
                        b + 1
                    };
                    assert(t[a] == s[a2] && t[b] == s[b2]);
                    assert(s[a2].user != s[b2].user);
                }
                if self.spec_has_player(user) {
                    let k = choose|k: int|
                        0 <= k < t.len() && (#[trigger] t[k]).user == user;
                    let k2 = if k < i as int {
                        k
                    } else {
                        k + 1
                    };
                    assert(s[k2].user == user);
                    assert(s[i as int].user == user);
                    if k2 < i as int {
                        assert(s[k2].user != s[i as int].user);
                    }
                    if k2 > i as int {
                        assert(s[i as int].user != s[k2].user);
                    }
                }
            }
        }
    }

    /// Whether the user is currently seated in the arena.
    pub fn contains_player(&self, user: u64) -> (r: bool)
        ensures
            r == self.spec_has_player(user),
    {
        self.find_player(user).is_some()
    }

    pub fn is_host(&self, user: u64) -> (r: bool)
        ensures
            r == (self.host == user),
    {
        self.host == user
    }

    pub fn is_running(&self) -> (r: bool)
        ensures
            r == self.started,
    {
        self.started
    }

    /// Joinable while not yet started and below the player cap.
    pub fn can_join(&self) -> (r: bool)
        ensures
            r == (self.players@.len() < self.max_players && !self.started),
    {
        (self.players.len() as u64) < self.max_players && !self.is_running()
    }

    /// Advance the turn pointer cyclically.
    pub fn next_turn(&mut self)
        requires
            old(self).wf(),
        ensures
            final(self).wf(),
            final(self).turn as int == if old(self).turn as int + 1 < old(self).players@.len() {
                old(self).turn as int + 1
            } else {
                0
            },
            *final(self) == (PvPArena { turn: final(self).turn, ..*old(self) }),
    {
        self.turn = self.turn + 1;
        if !((self.turn as usize) < self.players.len()) {
            self.turn = 0;
        }
    }

    /// Pull the turn pointer back after an action that must not consume the
    /// turn.
    fn prev_turn(&mut self)
        requires
            old(self).wf(),
        ensures
            final(self).wf(),
            final(self).turn as int == if old(self).turn > 0 {
                old(self).turn as int - 1
            } else {
                old(self).players@.len() - 1
            },
            *final(self) == (PvPArena { turn: final(self).turn, ..*old(self) }),
    {
        if self.turn > 0 {
            self.turn = self.turn - 1;
        } else {
            self.turn = (self.players.len() - 1) as u16;
        }
    }

    /// The ids of all participants, in turn order.
    pub fn list_players(&self) -> (r: Vec<u64>)
        ensures
            r@ == self.players@.map_values(|p: Player| p.user),
    {
        let mut names: Vec<u64> = Vec::new();
        let mut i: usize = 0;
        while i < self.players.len()
            invariant
                i <= self.players@.len(),
                names@ == self.players@.subrange(0, i as int).map_values(|p: Player| p.user),
            decreases self.players@.len() - i,
        {
            names.push(self.players[i].user);
            proof {
                assert(self.players@.subrange(0, i + 1).drop_last() == self.players@.subrange(
                    0,
                    i as int,
                ));
                assert(self.players@.subrange(0, i + 1).last() == self.players@[i as int]);
                assert(self.players@.subrange(0, i + 1).map_values(|p: Player| p.user)
                    =~= self.players@.subrange(0, i as int).map_values(|p: Player| p.user).push(
                    self.players@[i as int].user,
                ));
            }
            i = i + 1;
        }
        proof {
            assert(self.players@.subrange(0, self.players@.len() as int) == self.players@);
        }
        names
    }
}

/// How an attack was delivered.
#[derive(Clone, Copy, Debug, PartialEq, Eq, Structural)]
pub enum ArmKind {
    Fists,
    Weapon,
    Tome,
}

/// A domain-level result of one arena input; the renderer words it.
#[derive(Clone, Debug, PartialEq)]
pub enum PvPMsg {
    NotEnoughPlayers,
    ArenaStarted { first: u64, health: u32 },
    ArenaClosed,
    PlayerList { players: Vec<u64> },
    Kicked { target: u64 },
    NotYourTurn,
    MustPickTarget,
    TargetNotFound,
    Attacked { attacker: u64, target: u64, damage: u32, arm: ArmKind, next_health: u32 },
    Defeated { attacker: u64, target: u64, arm: ArmKind },
    ArenaWon { winner: u64, pot: u64 },
    ItemsDisabled,
    InvalidItem,
    Healed { user: u64, amount: u32, health: u32 },
    Surrendered { user: u64 },
}

pub open spec fn kw_start() -> Seq<u8> {
    seq![115u8, 116u8, 97u8, 114u8, 116u8]
}

pub open spec fn kw_end() -> Seq<u8> {
    seq![101u8, 110u8, 100u8]
}

pub open spec fn kw_list() -> Seq<u8> {
    seq![108u8, 105u8, 115u8, 116u8]
}

pub open spec fn kw_kick() -> Seq<u8> {
    seq![107u8, 105u8, 99u8, 107u8]
}

pub open spec fn kw_attack() -> Seq<u8> {
    seq![97u8, 116u8, 116u8, 97u8, 99u8, 107u8]
}

pub open spec fn kw_item() -> Seq<u8> {
    seq![105u8, 116u8, 101u8, 109u8]
}

pub open spec fn kw_surrender() -> Seq<u8> {
    seq![115u8, 117u8, 114u8, 114u8, 101u8, 110u8, 100u8, 101u8, 114u8]
}

/// An arena chat command in the waiting phase.
#[derive(Clone, Copy, Debug, PartialEq, Eq, Structural)]
pub enum PreCmd {
    Start,
    End,
    List,
    Kick,
    Other,
}

pub open spec fn spec_pre_cmd(t: Seq<u8>) -> PreCmd {
    if t == kw_start() {
        PreCmd::Start
    } else if t == kw_end() {
        PreCmd::End
    } else if t == kw_list() {
        PreCmd::List
    } else if t == kw_kick() {
        PreCmd::Kick
    } else {
        PreCmd::Other
    }
}

fn pre_cmd(t: &Vec<u8>) -> (c: PreCmd)
    ensures
        c == spec_pre_cmd(t@),
{
    let n = t.len();
    if n == 5 && t[0] == 115 && t[1] == 116 && t[2] == 97 && t[3] == 114 && t[4] == 116 {
        proof {
            assert(t@ =~= kw_start());
        }
        PreCmd::Start
    } else if n == 3 && t[0] == 101 && t[1] == 110 && t[2] == 100 {
        proof {
            assert(t@ =~= kw_end());
        }
        PreCmd::End
    } else if n == 4 && t[0] == 108 && t[1] == 105 && t[2] == 115 && t[3] == 116 {
        proof {
            assert(t@ =~= kw_list());
        }
        PreCmd::List
    } else if n == 4 && t[0] == 107 && t[1] == 105 && t[2] == 99 && t[3] == 107 {
        proof {
            assert(t@ =~= kw_kick());
        }
        PreCmd::Kick
    } else {
        proof {
            assert(t@ != kw_start() && t@ != kw_end() && t@ != kw_list() && t@ != kw_kick());
        }
        PreCmd::Other
    }
}

/// An arena chat command in the running phase.
#[derive(Clone, Copy, Debug, PartialEq, Eq, Structural)]
pub enum RunCmd {
    Attack,
    Item,
    List,
    Surrender,
    Other,
}

pub open spec fn spec_run_cmd(t: Seq<u8>) -> RunCmd {
    if t == kw_attack() {
        RunCmd::Attack
    } else if t == kw_item() {
        RunCmd::Item
    } else if t == kw_list() {
        RunCmd::List
    } else if t == kw_surrender() {
        RunCmd::Surrender
    } else {
        RunCmd::Other
    }
}

fn run_cmd(t: &Vec<u8>) -> (c: RunCmd)
    ensures
        c == spec_run_cmd(t@),
{
    let n = t.len();
    if n == 6 && t[0] == 97 && t[1] == 116 && t[2] == 116 && t[3] == 97 && t[4] == 99 && t[5]
        == 107 {
        proof {
            assert(t@ =~= kw_attack());
        }
        RunCmd::Attack
    } else if n == 4 && t[0] == 105 && t[1] == 116 && t[2] == 101 && t[3] == 109 {
        proof {
            assert(t@ =~= kw_item());
        }
        RunCmd::Item
    } else if n == 4 && t[0] == 108 && t[1] == 105 && t[2] == 115 && t[3] == 116 {
        proof {
            assert(t@ =~= kw_list());
        }
        RunCmd::List
    } else if n == 9 && t[0] == 115 && t[1] == 117 && t[2] == 114 && t[3] == 114 && t[4] == 101
        && t[5] == 110 && t[6] == 100 && t[7] == 101 && t[8] == 114 {
        proof {
            assert(t@ =~= kw_surrender());
        }
        RunCmd::Surrender
    } else {
        proof {
            assert(t@ != kw_attack() && t@ != kw_item() && t@ != kw_list() && t@
                != kw_surrender());
        }
        RunCmd::Other
    }
}

impl PvPArena {
    /// Refund the stake to every participant; the cancellation path of the
    /// arena, which restores each participant's balance to its pre-stake
    /// value.
    pub fn refund_all(&self, users: &mut Users)
        requires
            old(users).wf(),
            self.wf(),
            forall|i: int, j: int|
                0 <= i < j < self.players@.len() ==> (#[trigger] self.players@[i]).user != (
                #[trigger] self.players@[j]).user,
        ensures
            final(users).wf(),
            forall|i: int|
                0 <= i < self.players@.len() ==> final(users).spec_balance(
                    (#[trigger] self.players@[i]).user,
                ) == sat64(
                    old(users).spec_balance(self.players@[i].user) + self.stake,
                ),
            forall|v: u64|
                !self.spec_has_player(v) ==> old(users).spec_has(v) == final(users).spec_has(v)
                    && (old(users).spec_has(v) ==> final(users).spec_file(v) == old(
                    users,
                ).spec_file(v)),
    {
        let mut i: usize = 0;
        while i < self.players.len()
            invariant
                i <= self.players@.len(),
                users.wf(),
                self.wf(),
                forall|a: int, b: int|
                    0 <= a < b < self.players@.len() ==> (#[trigger] self.players@[a]).user != (
                    #[trigger] self.players@[b]).user,
                forall|j: int|
                    0 <= j < i ==> users.spec_balance((#[trigger] self.players@[j]).user)
                        == sat64(
                        old(users).spec_balance(self.players@[j].user) + self.stake,
                    ),
                forall|v: u64|
                    (forall|j: int| 0 <= j < i ==> (#[trigger] self.players@[j]).user != v)
                        ==> old(users).spec_has(v) == users.spec_has(v) && (old(
                        users,
                    ).spec_has(v) ==> users.spec_file(v) == old(users).spec_file(v)),
            decreases self.players@.len() - i,
        {
            let u = self.players[i].user;
            users.credit(u, self.stake);
            i = i + 1;
        }
    }

    /// Credit each participant other than `user` with an equal share.
    fn credit_others(&self, users: &mut Users, user: u64, share: u64)
        requires
            old(users).wf(),
            self.wf(),
            forall|i: int, j: int|
                0 <= i < j < self.players@.len() ==> (#[trigger] self.players@[i]).user != (
                #[trigger] self.players@[j]).user,
        ensures
            final(users).wf(),
            forall|i: int|
                0 <= i < self.players@.len() && (#[trigger] self.players@[i]).user != user
                    ==> final(users).spec_balance(self.players@[i].user) == sat64(
                    old(users).spec_balance(self.players@[i].user) + share,
                ),
            forall|v: u64|
                (!self.spec_has_player(v) || v == user) ==> old(users).spec_has(v)
                    == final(users).spec_has(v) && (old(users).spec_has(v)
                    ==> final(users).spec_file(v) == old(users).spec_file(v)),
    {
        let mut i: usize = 0;
        while i < self.players.len()
            invariant
                i <= self.players@.len(),
                users.wf(),
                self.wf(),
                forall|a: int, b: int|
                    0 <= a < b < self.players@.len() ==> (#[trigger] self.players@[a]).user != (
                    #[trigger] self.players@[b]).user,
                forall|j: int|
                    0 <= j < i && (#[trigger] self.players@[j]).user != user
                        ==> users.spec_balance(self.players@[j].user) == sat64(
                        old(users).spec_balance(self.players@[j].user) + share,
                    ),
                forall|v: u64|
                    ((forall|j: int| 0 <= j < i ==> (#[trigger] self.players@[j]).user != v) || v
                        == user) ==> old(users).spec_has(v) == users.spec_has(v) && (old(
                        users,
                    ).spec_has(v) ==> users.spec_file(v) == old(users).spec_file(v)),
            decreases self.players@.len() - i,
        {
            let u = self.players[i].user;
            if u != user {
                users.credit(u, share);
            }
            i = i + 1;
        }
    }

    /// Pay the whole pot (the stake times every participant who ever
    /// joined) to the winner and end the arena.
    fn handle_win(&mut self, users: &mut Users, winner: u64) -> (r: (PvPMsg, bool, Option<u64>))
        requires
            old(users).wf(),
            old(self).wf(),
        ensures
            final(users).wf(),
            final(self).wf(),
            *final(self) == *old(self),
            ({
                let pot = sat64(old(self).stake * old(self).total_players);
                r == (PvPMsg::ArenaWon { winner, pot }, true, Option::<u64>::None)
                    && final(users).spec_balance(winner) == sat64(
                    old(users).spec_balance(winner) + pot,
                )
            }),
            forall|v: u64|
                v != winner ==> old(users).spec_has(v) == final(users).spec_has(v) && (old(
                    users,
                ).spec_has(v) ==> final(users).spec_file(v) == old(users).spec_file(v)),
    {
        let pot = match self.stake.checked_mul(self.total_players) {
            Some(p) => p,
            None => u64::MAX,
        };
        users.credit(winner, pot);
        (PvPMsg::ArenaWon { winner, pot }, true, None)
    }

    /// Handle a chat line while the arena is still gathering players.
    /// `start`, `end` and `kick` act only for the host; `list` for anyone.
    /// `None` means the line was not an arena command for this sender.
    pub fn handle_prestart_message(
        &mut self,
        users: &mut Users,
        user: u64,
        text: &str,
        mention: Option<u64>,
    ) -> (r: Option<(PvPMsg, bool, Option<u64>)>)
        requires
            old(self).wf(),
            old(users).wf(),
            !old(self).started,
            forall|i: int, j: int|
                0 <= i < j < old(self).players@.len() ==> (#[trigger] old(
                    self,
                ).players@[i]).user != (#[trigger] old(self).players@[j]).user,
        ensures
            final(self).wf(),
            final(users).wf(),
            ({
                let post_players = final(self).players@;
                forall|i: int, j: int|
                    0 <= i < j < post_players.len() ==> (#[trigger] post_players[i]).user != (
                    #[trigger] post_players[j]).user
            }),
            forall|u: u64|
                final(self).spec_has_player(u) ==> old(self).spec_has_player(u),
            final(self).started ==> final(self).players@.len() >= 2,
            final(self).stake == old(self).stake,
            final(self).host == old(self).host,
            final(self).total_players == old(self).total_players,
            r is None ==> *final(self) == *old(self) && *final(users) == *old(users),
            r matches Option::Some((PvPMsg::Kicked { target }, done, rem))
                ==> !final(self).spec_has_player(target) && rem == Option::Some(target)
                && !done && final(users).spec_balance(target) == sat64(
                old(users).spec_balance(target) + old(self).stake,
            ),
            ({
                let cmd = spec_pre_cmd(crate::text::nth_token(text.spec_bytes(), 0));
                &&& (cmd == PreCmd::Start && user != old(self).host ==> r is None
                    && *final(self) == *old(self) && *final(users) == *old(users))
                &&& (cmd == PreCmd::Start && user == old(self).host && old(
                    self,
                ).players@.len() < 2 ==> r == Option::Some(
                    (PvPMsg::NotEnoughPlayers, false, Option::<u64>::None),
                ) && *final(self) == *old(self) && *final(users) == *old(users))
                &&& (cmd == PreCmd::Start && user == old(self).host && old(
                    self,
                ).players@.len() >= 2 ==> final(self).started && *final(self) == (PvPArena {
                    started: true,
                    ..*old(self)
                }) && *final(users) == *old(users) && r == Option::Some(
                    (
                        PvPMsg::ArenaStarted {
                            first: old(self).players@[old(self).turn as int].user,
                            health: old(self).players@[old(self).turn as int].health,
                        },
                        false,
                        Option::<u64>::None,
                    ),
                ))
                &&& (cmd == PreCmd::End && user != old(self).host ==> r is None && *final(self)
                    == *old(self) && *final(users) == *old(users))
                &&& (cmd == PreCmd::End && user == old(self).host ==> r == Option::Some(
                    (PvPMsg::ArenaClosed, true, Option::<u64>::None),
                ) && *final(self) == *old(self) && (forall|i: int|
                    0 <= i < old(self).players@.len() ==> final(users).spec_balance(
                        (#[trigger] old(self).players@[i]).user,
                    ) == sat64(
                        old(users).spec_balance(old(self).players@[i].user) + old(self).stake,
                    )) && (forall|v: u64|
                    !old(self).spec_has_player(v) ==> old(users).spec_has(v)
                        == final(users).spec_has(v) && (old(users).spec_has(v)
                        ==> final(users).spec_file(v) == old(users).spec_file(v))))
                &&& (cmd == PreCmd::List ==> (r matches Option::Some((m, done, rem)) && (
                m matches PvPMsg::PlayerList { players } && players@ == old(
                    self,
                ).players@.map_values(|p: Player| p.user)) && done == false && rem is None)
                    && *final(self) == *old(self) && *final(users) == *old(users))
                &&& (cmd == PreCmd::Other ==> r is None && *final(self) == *old(self)
                    && *final(users) == *old(users))
            }),
    {
        let bytes = text.as_bytes_vec();
        let tok = crate::text::first_token(&bytes);
        let cmd = pre_cmd(&tok);
        match cmd {
            PreCmd::Start => {
                if !self.is_host(user) {
                    return None;
                }
                if self.players.len() < 2 {
                    return Some((PvPMsg::NotEnoughPlayers, false, None));
                }
                self.started = true;
                let first = self.players[self.turn as usize].user;
                let health = self.players[self.turn as usize].health;
                Some((PvPMsg::ArenaStarted { first, health }, false, None))
            },
            PreCmd::End => {
                if !self.is_host(user) {
                    return None;
                }
                self.refund_all(users);
                Some((PvPMsg::ArenaClosed, true, None))
            },
            PreCmd::List => {
                let names = self.list_players();
                Some((PvPMsg::PlayerList { players: names }, false, None))
            },
            PreCmd::Kick => {
                if !self.is_host(user) {
                    return None;
                }
                let target = match mention {
                    Some(t) => t,
                    None => {
                        return None;
                    },
                };
                if target == self.host {
                    return None;
                }
                match self.find_player(target) {
                    Some(_) => {
                        if self.players.len() < 2 {
                            return None;
                        }
                        self.remove_player(target);
                        users.credit(target, self.stake);
                        Some((PvPMsg::Kicked { target }, false, Some(target)))
                    },
                    None => None,
                }
            },
            PreCmd::Other => None,
        }
    }

    /// Index of the first participant other than `user`; with at least two
    /// distinct participants one always exists.
    fn find_other(&self, user: u64) -> (i: usize)
        requires
            self.wf(),
            self.players@.len() >= 2,
            forall|a: int, b: int|
                0 <= a < b < self.players@.len() ==> (#[trigger] self.players@[a]).user != (
                #[trigger] self.players@[b]).user,
        ensures
            i < self.players@.len(),
            self.players@[i as int].user != user,
    {
        if self.players[0].user != user {
            0
        } else {
            proof {
                assert(self.players@[0].user != self.players@[1].user);
            }
            1
        }
    }

    /// Apply damage to the participant in `ti`, flooring health at zero.
    fn apply_damage(&mut self, ti: usize, damage: u32) -> (h: u32)
        requires
            old(self).wf(),
            ti < old(self).players@.len(),
        ensures
            final(self).wf(),
            h as int == if damage > old(self).players@[ti as int].health {
                0
            } else {
                old(self).players@[ti as int].health - damage
            },
            final(self).players@ == old(self).players@.update(
                ti as int,
                Player { user: old(self).players@[ti as int].user, health: h },
            ),
            final(self).turn == old(self).turn,
            final(self).stake == old(self).stake,
            final(self).host == old(self).host,
            final(self).started == old(self).started,
            final(self).total_players == old(self).total_players,
            final(self).enable_items == old(self).enable_items,
            final(self).max_health == old(self).max_health,
            final(self).base_health == old(self).base_health,
            final(self).damage_lo == old(self).damage_lo,
            final(self).damage_hi == old(self).damage_hi,
            final(self).max_players == old(self).max_players,
    {
        let user = self.players[ti].user;
        let health = self.players[ti].health;
        let h = if damage > health {
            0
        } else {
            health - damage
        };
        self.players[ti] = Player { user, health: h };
        h
    }

    /// Handle a chat line while the arena is running. An action out of turn
    /// is rejected without consuming the turn; an invalid action by the
    /// current participant rolls the pointer back so the turn is not lost.
    /// The third element of a result names a participant the session layer
    /// must remove (eliminated or surrendered).
    pub fn handle_message(
        &mut self,
        users: &mut Users,
        user: u64,
        text: &str,
        mention: Option<u64>,
    ) -> (r: Option<(PvPMsg, bool, Option<u64>)>)
        requires
            old(self).wf(),
            old(users).wf(),
            old(self).players@.len() >= 2,
            forall|a: int, b: int|
                0 <= a < b < old(self).players@.len() ==> (#[trigger] old(
                    self,
                ).players@[a]).user != (#[trigger] old(self).players@[b]).user,
        ensures
            final(self).wf(),
            final(users).wf(),
            final(self).players@.len() == old(self).players@.len(),
            forall|i: int|
                0 <= i < old(self).players@.len() ==> (#[trigger] final(self).players@[i]).user
                    == old(self).players@[i].user,
            final(self).stake == old(self).stake,
            final(self).host == old(self).host,
            final(self).total_players == old(self).total_players,
            final(self).started == old(self).started,
            r is None ==> *final(self) == *old(self) && *final(users) == *old(users),
            ({
                let cmd = spec_run_cmd(crate::text::nth_token(text.spec_bytes(), 0));
                let is_turn = old(self).players@[old(self).turn as int].user == user;
                &&& (cmd == RunCmd::Attack && !is_turn ==> r == Option::Some(
                    (PvPMsg::NotYourTurn, false, Option::<u64>::None),
                ) && *final(self) == *old(self) && *final(users) == *old(users))
                &&& (cmd == RunCmd::List ==> (r matches Option::Some((m, done, rem)) && (
                m matches PvPMsg::PlayerList { players } && players@ == old(
                    self,
                ).players@.map_values(|p: Player| p.user)) && done == false && rem is None)
                    && *final(self) == *old(self) && *final(users) == *old(users))
                &&& (cmd == RunCmd::Other ==> r is None && *final(self) == *old(self)
                    && *final(users) == *old(users))
                &&& (cmd == RunCmd::Item && !old(self).enable_items ==> r == Option::Some(
                    (PvPMsg::ItemsDisabled, false, Option::<u64>::None),
                ) && *final(self) == *old(self) && *final(users) == *old(users))
                &&& (cmd == RunCmd::Surrender ==> ({
                    let share = (old(self).stake / old(self).players@.len() as u64) as u64;
                    &&& (forall|i: int|
                        0 <= i < old(self).players@.len() && (#[trigger] old(
                            self,
                        ).players@[i]).user != user && old(self).players@.len() >= 3
                            ==> final(users).spec_balance(old(self).players@[i].user) == sat64(
                            old(users).spec_balance(old(self).players@[i].user) + share,
                        ))
                    &&& (old(self).players@.len() >= 3 ==> r == Option::Some(
                        (PvPMsg::Surrendered { user }, false, Option::Some(user)),
                    ))
                    &&& (old(self).players@.len() == 2 ==> (r matches Option::Some(
                        (m, done, rem),
                    ) && m matches PvPMsg::ArenaWon { winner, pot } && done && rem is None
                        && winner != user && pot == sat64(
                        old(self).stake * old(self).total_players,
                    )))
                }))
                &&& (cmd == RunCmd::Attack && is_turn ==> (r matches Option::Some(
                    (m2, d2, rm2),
                ) && (m2 is Attacked || m2 is Defeated || m2 is ArenaWon || m2
                    is MustPickTarget || m2 is TargetNotFound)))
                &&& (cmd == RunCmd::Attack && is_turn && (r matches Option::Some(
                    (PvPMsg::MustPickTarget, d2, rm2),
                )) ==> old(self).players@.len() > 2 && mention is None && *final(self) == *old(
                    self,
                ) && *final(users) == *old(users))
                &&& (cmd == RunCmd::Attack && is_turn && (r matches Option::Some(
                    (PvPMsg::TargetNotFound, d2, rm2),
                )) ==> old(self).players@.len() > 2 && (mention matches Option::Some(t)
                    && !old(self).spec_has_player(t)) && *final(self) == *old(self)
                    && *final(users) == *old(users))
                &&& (cmd == RunCmd::Item && old(self).enable_items && ({
                    let slot = crate::text::digits_value(
                        crate::text::nth_token(text.spec_bytes(), 1),
                    );
                    match slot {
                        Option::Some(sv) => 1 <= sv <= 0xffff && old(users).spec_has(user) && (
                        sv - 1) < old(users).spec_file(user).inventory.items@.len() && (old(
                            users,
                        ).spec_file(user).inventory.items@[sv as int - 1] is HealingPotion)
                            && old(self).spec_has_player(user),
                        Option::None => false,
                    }
                }) ==> (r matches Option::Some((m2, d2, rm2)) && m2 is Healed))
                &&& (r matches Option::Some((PvPMsg::Healed { user: hu, amount, health }, d2, rm2))
                    ==> ({
                    let slot = crate::text::digits_value(
                        crate::text::nth_token(text.spec_bytes(), 1),
                    );
                    &&& hu == user
                    &&& !d2
                    &&& rm2 is None
                    &&& old(users).spec_has(user)
                    &&& (slot matches Option::Some(sv) && 1 <= sv <= 0xffff && (sv - 1) < old(
                        users,
                    ).spec_file(user).inventory.items@.len() && old(users).spec_file(
                        user,
                    ).inventory.items@[sv as int - 1] == (InventoryItem::HealingPotion {
                        health: amount,
                    }) && final(users).spec_file(user).inventory.items@ == old(users).spec_file(
                        user,
                    ).inventory.items@.remove(sv as int - 1))
                    &&& (exists|pi: int|
                        0 <= pi < old(self).players@.len() && (#[trigger] old(
                            self,
                        ).players@[pi]).user == user && health as int == ({
                            let raw = if old(self).players@[pi].health + amount <= u32::MAX {
                                old(self).players@[pi].health + amount
                            } else {
                                u32::MAX as int
                            };
                            if raw > old(self).max_health {
                                old(self).max_health as int
                            } else {
                                raw
                            }
                        }) && final(self).players@ == old(self).players@.update(
                            pi,
                            Player { user, health },
                        ))
                    &&& final(self).turn == old(self).turn
                }))
                &&& (r matches Option::Some((PvPMsg::Defeated { attacker, target, arm }, d2, rm2))
                    ==> attacker == user && !d2 && rm2 == Option::Some(target)
                    && final(users).spec_balance(user) == old(users).spec_balance(user) && (
                arm != ArmKind::Tome ==> *final(users) == *old(users)) && (exists|ti: int|
                    0 <= ti < old(self).players@.len() && (#[trigger] old(
                        self,
                    ).players@[ti]).user == target && final(self).players@ == old(
                        self,
                    ).players@.update(ti, Player { user: target, health: 0u32 })))
                &&& (r matches Option::Some((PvPMsg::ArenaWon { winner, pot }, d2, rm2)) ==> (
                cmd == RunCmd::Attack || cmd == RunCmd::Item) ==> winner == user && d2 && (rm2
                    is None) && final(users).spec_balance(user) == sat64(
                    old(users).spec_balance(user) + pot,
                ) && (exists|ti: int|
                    0 <= ti < old(self).players@.len() && (#[trigger] old(
                        self,
                    ).players@[ti]).user != user && final(self).players@ == old(
                        self,
                    ).players@.update(
                        ti,
                        Player { user: old(self).players@[ti].user, health: 0u32 },
                    )))
                &&& (match r {
                    Option::Some((m, done, rem)) => match m {
                        PvPMsg::ArenaWon { winner, pot } => pot == sat64(
                            old(self).stake * old(self).total_players,
                        ) && done,
                        PvPMsg::Attacked { attacker, target, damage, arm, next_health } => ({
                            &&& attacker == user
                            &&& !done
                            &&& rem is None
                            &&& (arm == ArmKind::Fists ==> old(self).damage_lo <= damage <= old(
                                self,
                            ).damage_hi && *final(users) == *old(users))
                            &&& (arm == ArmKind::Weapon ==> *final(users) == *old(users) && ((
                            if old(users).spec_has(user) {
                                old(users).spec_file(user).inventory.equiped
                            } else {
                                Option::<InventoryItem>::None
                            }) matches Option::Some(InventoryItem::Weapon {
                                damage_lo: wl,
                                damage_hi: wh,
                                ..
                            }) && wl <= damage && (damage <= wh || damage <= wl)))
                            &&& (arm == ArmKind::Tome ==> ({
                                let slot = crate::text::digits_value(
                                    crate::text::nth_token(text.spec_bytes(), 1),
                                );
                                &&& old(self).enable_items
                                &&& old(users).spec_has(user)
                                &&& (slot matches Option::Some(sv) && 1 <= sv <= 0xffff && (sv
                                    - 1) < old(users).spec_file(user).inventory.items@.len()
                                    && (old(users).spec_file(user).inventory.items@[sv as int
                                    - 1] matches InventoryItem::SpellTome {
                                    damage_lo: tl,
                                    damage_hi: th,
                                    ..
                                } && tl <= damage && (damage <= th || damage <= tl))
                                    && final(users).spec_file(user).inventory.items@ == old(
                                    users,
                                ).spec_file(user).inventory.items@.remove(sv as int - 1))
                            }))
                            &&& final(users).spec_balance(user) == old(users).spec_balance(user)
                            &&& (exists|ti: int|
                                0 <= ti < old(self).players@.len() && (#[trigger] old(
                                    self,
                                ).players@[ti]).user == target && old(self).players@[ti].health
                                    > damage && final(self).players@ == old(
                                    self,
                                ).players@.update(
                                    ti,
                                    Player {
                                        user: target,
                                        health: (old(self).players@[ti].health - damage) as u32,
                                    },
                                ))
                            &&& final(self).turn as int == (if old(self).turn as int + 1 < old(
                                self,
                            ).players@.len() {
                                old(self).turn as int + 1
                            } else {
                                0
                            })
                        }),
                        _ => true,
                    },
                    Option::None => true,
                })
            }),
    {
        let bytes = text.as_bytes_vec();
        let tok = crate::text::first_token(&bytes);
        let cmd = run_cmd(&tok);
        let is_turn = self.players[self.turn as usize].user == user;
        let last_2 = self.players.len() < 3;
        if is_turn {
            self.next_turn();
        }
        match cmd {
            RunCmd::Attack => {
                if !is_turn {
                    return Some((PvPMsg::NotYourTurn, false, None));
                }
                let ti: usize;
                if self.players.len() > 2 {
                    let target = match mention {
                        Some(t) => t,
                        None => {
                            self.prev_turn();
                            proof {
                                assert(*self == *old(self));
                            }
                            return Some((PvPMsg::MustPickTarget, false, None));
                        },
                    };
                    match self.find_player(target) {
                        Some(i) => {
                            ti = i;
                        },
                        None => {
                            self.prev_turn();
                            proof {
                                assert(*self == *old(self));
                            }
                            return Some((PvPMsg::TargetNotFound, false, None));
                        },
                    }
                } else {
                    ti = self.find_other(user);
                }
                let target_user = self.players[ti].user;
                let mut arm = ArmKind::Fists;
                let mut lo = self.damage_lo;
                let mut hi = self.damage_hi;
                if self.enable_items {
                    if let Some(InventoryItem::Weapon { damage_lo, damage_hi, .. }) =
                        users.equipped_of(user) {
                        arm = ArmKind::Weapon;
                        lo = damage_lo;
                        hi = if damage_hi >= damage_lo {
                            damage_hi
                        } else {
                            damage_lo
                        };
                    }
                }
                let damage = rng::roll_u32(lo, hi);
                let h = self.apply_damage(ti, damage);
                if h == 0 {
                    if last_2 {
                        return Some(self.handle_win(users, user));
                    }
                    return Some(
                        (
                            PvPMsg::Defeated { attacker: user, target: target_user, arm },
                            false,
                            Some(target_user),
                        ),
                    );
                }
                let next_health = self.players[self.turn as usize].health;
                Some(
                    (
                        PvPMsg::Attacked {
                            attacker: user,
                            target: target_user,
                            damage,
                            arm,
                            next_health,
                        },
                        false,
                        None,
                    ),
                )
            },
            RunCmd::Item => {
                if !self.enable_items {
                    if is_turn {
                        self.prev_turn();
                        proof {
                            assert(*self == *old(self));
                        }
                    }
                    return Some((PvPMsg::ItemsDisabled, false, None));
                }
                let t1 = crate::text::second_token(&bytes);
                let slot = match crate::text::parse_u64(&t1) {
                    Some(s) => s,
                    None => {
                        if is_turn {
                            self.prev_turn();
                        }
                        return Some((PvPMsg::InvalidItem, false, None));
                    },
                };
                if slot == 0 || slot > 0xffff {
                    if is_turn {
                        self.prev_turn();
                    }
                    return Some((PvPMsg::InvalidItem, false, None));
                }
                let idx = (slot - 1) as usize;
                let item = match users.item_at(user, idx) {
                    Some(it) => it,
                    None => {
                        if is_turn {
                            self.prev_turn();
                        }
                        return Some((PvPMsg::InvalidItem, false, None));
                    },
                };
                match item {
                    InventoryItem::HealingPotion { health } => {
                        if is_turn {
                            self.prev_turn();
                        }
                        let pi = match self.find_player(user) {
                            Some(i) => i,
                            None => {
                                return Some((PvPMsg::InvalidItem, false, None));
                            },
                        };
                        let cur = self.players[pi].health;
                        let healed = if cur <= u32::MAX - health {
                            cur + health
                        } else {
                            u32::MAX
                        };
                        let capped = if healed > self.max_health {
                            self.max_health
                        } else {
                            healed
                        };
                        self.players[pi] = Player { user, health: capped };
                        users.remove_item_at(user, idx);
                        Some((PvPMsg::Healed { user, amount: health, health: capped }, false, None))
                    },
                    InventoryItem::SpellTome { damage_lo, damage_hi, .. } => {
                        if !is_turn {
                            return Some((PvPMsg::NotYourTurn, false, None));
                        }
                        let ti: usize;
                        if self.players.len() > 2 {
                            let target = match mention {
                                Some(t) => t,
                                None => {
                                    self.prev_turn();
                                    return Some((PvPMsg::MustPickTarget, false, None));
                                },
                            };
                            match self.find_player(target) {
                                Some(i) => {
                                    ti = i;
                                },
                                None => {
                                    self.prev_turn();
                                    return Some((PvPMsg::TargetNotFound, false, None));
                                },
                            }
                        } else {
                            ti = self.find_other(user);
                        }
                        let target_user = self.players[ti].user;
                        let hi = if damage_hi >= damage_lo {
                            damage_hi
                        } else {
                            damage_lo
                        };
                        let damage = rng::roll_u32(damage_lo, hi);
                        let h = self.apply_damage(ti, damage);
                        users.remove_item_at(user, idx);
                        if h == 0 {
                            if last_2 {
                                return Some(self.handle_win(users, user));
                            }
                            return Some(
                                (
                                    PvPMsg::Defeated {
                                        attacker: user,
                                        target: target_user,
                                        arm: ArmKind::Tome,
                                    },
                                    false,
                                    Some(target_user),
                                ),
                            );
                        }
                        Some(
                            (
                                PvPMsg::Attacked {
                                    attacker: user,
                                    target: target_user,
                                    damage,
                                    arm: ArmKind::Tome,
                                    next_health: self.players[self.turn as usize].health,
                                },
                                false,
                                None,
                            ),
                        )
                    },
                    _ => {
                        if is_turn {
                            self.prev_turn();
                        }
                        Some((PvPMsg::InvalidItem, false, None))
                    },
                }
            },
            RunCmd::List => {
                let names = self.list_players();
                if is_turn {
                    self.prev_turn();
                    proof {
                        assert(*self == *old(self));
                    }
                }
                Some((PvPMsg::PlayerList { players: names }, false, None))
            },
            RunCmd::Surrender => {
                let share = self.stake / (self.players.len() as u64);
                self.credit_others(users, user, share);
                if self.players.len() < 3 {
                    let o = self.find_other(user);
                    let winner = self.players[o].user;
                    return Some(self.handle_win(users, winner));
                }
                Some((PvPMsg::Surrendered { user }, false, Some(user)))
            },
            RunCmd::Other => {
                if is_turn {
                    self.prev_turn();
                    proof {
                        assert(*self == *old(self));
                    }
                }
                None
            },
        }
    }
}

} // verus!
