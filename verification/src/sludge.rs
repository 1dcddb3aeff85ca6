//! The plain sludge monster battle: a boss with one to five hundred health,
//! fought with bare attacks. Healing in this variant is capped at one
//! hundred, unlike the mine battle; the asymmetry is intentional.
use vstd::prelude::*;
use vstd::string::{StrSliceExecFns, StringSliceAdditionalSpecFns};
use crate::store::{Users, sat64};
use crate::mine_battle::{BattleCmd, battle_cmd, spec_battle_cmd};
use crate::rng;

verus! {

/// A domain-level result of one sludge battle input.
#[derive(Clone, Copy, Debug, PartialEq, Eq, Structural)]
pub enum SludgeMsg {
    AttackedBoss { damage: u32, counter: u32 },
    BossDefeated { reward: u64 },
    Defeat { lost: u64 },
    Fled,
    FleeFailed { counter: u32 },
    Unknown,
}

/// A running sludge monster battle.
#[derive(Clone, Copy, Debug)]
pub struct SludgeMonsterBattle {
    pub boss_health: u32,
    pub player_health: u32,
    pub initial_health: u32,
}

/// Top of the reward bracket (in thousands) for a boss of the given initial
/// health; the floor of the bracket is a fifth of it.
pub open spec fn spec_reward_high(initial: u32) -> u64 {
    if initial == 500 {
        100
    } else if initial == 400 {
        75
    } else if initial == 300 {
        50
    } else if initial == 200 {
        25
    } else {
        10
    }
}

impl SludgeMonsterBattle {
    /// Roll the boss health as a multiple of one hundred, up to five
    /// hundred; the player starts at one hundred.
    pub fn new() -> (b: SludgeMonsterBattle)
        ensures
            100 <= b.boss_health <= 500,
            b.boss_health % 100 == 0,
            b.initial_health == b.boss_health,
            b.player_health == 100,
    {
        let boss_health = rng::roll_u32(1, 5) * 100;
        SludgeMonsterBattle { boss_health, player_health: 100, initial_health: boss_health }
    }

    /// Roll zero to twenty-five damage against the boss, flooring at zero.
    pub fn attack(&mut self) -> (damage: u32)
        ensures
            0 <= damage <= 25,
            final(self).boss_health == if damage > old(self).boss_health {
                0u32
            } else {
                (old(self).boss_health - damage) as u32
            },
            final(self).player_health == old(self).player_health,
            final(self).initial_health == old(self).initial_health,
    {
        let damage = rng::roll_u32(0, 25);
        if damage > self.boss_health {
            self.boss_health = 0;
        } else {
            self.boss_health = self.boss_health - damage;
        }
        damage
    }

    /// Flight succeeds with probability one over the player's health.
    pub fn attempt_flee(&mut self) -> (fled: bool)
        requires
            old(self).player_health > 0,
        ensures
            *final(self) == *old(self),
    {
        rng::roll_u64(0, self.player_health as u64 - 1) == 0
    }

    /// The boss strikes back for zero to ten, flooring at zero.
    pub fn boss_turn(&mut self) -> (damage: u32)
        ensures
            0 <= damage <= 10,
            final(self).player_health == if damage > old(self).player_health {
                0u32
            } else {
                (old(self).player_health - damage) as u32
            },
            final(self).boss_health == old(self).boss_health,
            final(self).initial_health == old(self).initial_health,
    {
        let damage = rng::roll_u32(0, 10);
        if damage > self.player_health {
            self.player_health = 0;
        } else {
            self.player_health = self.player_health - damage;
        }
        damage
    }

    /// Heal the player, capped at one hundred (this variant caps; the mine
    /// battle does not).
    pub fn heal_player(&mut self, amt: u32)
        ensures
            final(self).player_health as int == if old(self).player_health + amt > 100 {
                100int
            } else {
                old(self).player_health + amt
            },
            final(self).boss_health == old(self).boss_health,
            final(self).initial_health == old(self).initial_health,
    {
        if amt >= 100 {
            self.player_health = 100;
        } else if self.player_health > 100 - amt {
            self.player_health = 100;
        } else {
            self.player_health = self.player_health + amt;
        }
    }

    /// A lost battle costs a roll of one to twenty hundreds, bounded by the
    /// purse.
    fn handle_player_death(&mut self, users: &mut Users, user: u64) -> (r: (SludgeMsg, bool))
        requires
            old(users).wf(),
        ensures
            final(users).wf(),
            *final(self) == *old(self),
            r.1,
            ({
                let bal = old(users).spec_balance(user);
                r.0 matches SludgeMsg::Defeat { lost } && 100 <= lost <= 2000
                    && final(users).spec_balance(user) as int == (if bal >= lost {
                    bal - lost
                } else {
                    0int
                })
            }),
            forall|v: u64|
                v != user ==> old(users).spec_has(v) == final(users).spec_has(v) && (old(
                    users,
                ).spec_has(v) ==> final(users).spec_file(v) == old(users).spec_file(v)),
    {
        let cost = rng::roll_u64(1, 20) * 100;
        let balance = users.get_balance(user);
        if balance < cost {
            users.debit(user, balance);
        } else {
            users.debit(user, cost);
        }
        (SludgeMsg::Defeat { lost: cost }, true)
    }

    /// Drive the battle with one free-text chat line: `attack`, `run` or
    /// `surrender`. A defeated boss pays a reward drawn from a bracket
    /// keyed by its initial health, in whole thousands.
    pub fn handle_message(&mut self, users: &mut Users, user: u64, text: &str) -> (r: (
        SludgeMsg,
        bool,
    ))
        requires
            old(users).wf(),
            old(self).player_health > 0,
        ensures
            final(users).wf(),
            final(self).initial_health == old(self).initial_health,
            !r.1 ==> final(self).player_health > 0,
            ({
                let cmd = spec_battle_cmd(crate::text::nth_token(text.spec_bytes(), 0));
                let bal = old(users).spec_balance(user);
                let high = spec_reward_high(old(self).initial_health);
                &&& (r.0 matches SludgeMsg::BossDefeated { reward } ==> r.1 && (high / 5)
                    * 1000 <= reward <= high * 1000 && reward % 1000 == 0
                    && final(users).spec_balance(user) == sat64(bal + reward))
                &&& (r.0 matches SludgeMsg::Defeat { lost } ==> r.1 && 100 <= lost <= 2000
                    && final(users).spec_balance(user) as int == (if bal >= lost {
                    bal - lost
                } else {
                    0int
                }))
                &&& (r.0 is Fled ==> r.1 && *final(self) == *old(self)
                    && *final(users) == *old(users))
                &&& (r.0 is AttackedBoss || r.0 is FleeFailed ==> !r.1
                    && *final(users) == *old(users))
                &&& (cmd == BattleCmd::Surrender ==> r.0 is Defeat)
                &&& (cmd == BattleCmd::Attack ==> r.0 is AttackedBoss || r.0 is BossDefeated
                    || r.0 is Defeat)
                &&& (cmd == BattleCmd::Run ==> r.0 is Fled || r.0 is FleeFailed || r.0
                    is Defeat)
                &&& (r.0 matches SludgeMsg::AttackedBoss { damage, counter } ==> damage <= 25
                    && counter <= 10 && damage < old(self).boss_health
                    && final(self).boss_health == old(self).boss_health - damage && counter
                    < old(self).player_health && final(self).player_health == old(
                    self,
                ).player_health - counter)
                &&& (r.0 is BossDefeated ==> final(self).boss_health == 0
                    && final(self).player_health == old(self).player_health)
                &&& (r.0 is Defeat ==> cmd == BattleCmd::Surrender || final(self).player_health
                    == 0)
                &&& (r.0 matches SludgeMsg::FleeFailed { counter } ==> counter <= 10 && counter
                    < old(self).player_health && final(self).player_health == old(
                    self,
                ).player_health - counter && final(self).boss_health == old(self).boss_health)
                &&& (cmd == BattleCmd::Other || cmd == BattleCmd::Item || cmd == BattleCmd::Pray
                    ==> r == (SludgeMsg::Unknown, false) && *final(self) == *old(self)
                    && *final(users) == *old(users))
            }),
            forall|v: u64|
                v != user ==> old(users).spec_has(v) == final(users).spec_has(v) && (old(
                    users,
                ).spec_has(v) ==> final(users).spec_file(v) == old(users).spec_file(v)),
    {
        let bytes = text.as_bytes_vec();
        let tok = crate::text::first_token(&bytes);
        let cmd = battle_cmd(&tok);
        match cmd {
            BattleCmd::Attack => {
                let damage = self.attack();
                if self.boss_health == 0 {
                    let high = if self.initial_health == 500 {
                        100u64
                    } else if self.initial_health == 400 {
                        75u64
                    } else if self.initial_health == 300 {
                        50u64
                    } else if self.initial_health == 200 {
                        25u64
                    } else {
                        10u64
                    };
                    let low = high / 5;
                    let reward = rng::roll_u64(low, high) * 1000;
                    users.credit(user, reward);
                    return (SludgeMsg::BossDefeated { reward }, true);
                }
                let counter = self.boss_turn();
                if self.player_health == 0 {
                    return self.handle_player_death(users, user);
                }
                (SludgeMsg::AttackedBoss { damage, counter }, false)
            },
            BattleCmd::Run => {
                let fled = self.attempt_flee();
                if fled {
                    return (SludgeMsg::Fled, true);
                }
                let counter = self.boss_turn();
                if self.player_health == 0 {
                    return self.handle_player_death(users, user);
                }
                (SludgeMsg::FleeFailed { counter }, false)
            },
            BattleCmd::Surrender => self.handle_player_death(users, user),
            _ => (SludgeMsg::Unknown, false),
        }
    }
}

} // verus!
