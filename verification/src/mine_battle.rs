//! The mine creature battle: a randomized enemy from the current mine tier,
//! fought with attacks, items and a one-shot prayer. Healing in this variant
//! is deliberately uncapped, unlike the plain sludge monster battle.
use vstd::prelude::*;
use vstd::string::{StrSliceExecFns, StringSliceAdditionalSpecFns};
use crate::items::{InventoryItem, TomeKind};
use crate::mine_data::{Enemy, MineTier};
use crate::store::{Users, sat64};
use crate::rng;

verus! {

/// What a won battle paid out.
#[derive(Clone, Copy, Debug, PartialEq, Eq, Structural)]
pub enum Reward {
    Currency { amount: u64 },
    Item { item: InventoryItem, kept: bool },
    SuperNanners { amount: u16 },
}

/// A domain-level result of one battle input; the renderer words it.
#[derive(Clone, Copy, Debug, PartialEq, Eq, Structural)]
pub enum MineMsg {
    AttackedEnemy { damage: u32, counter: u32, weapon: bool },
    Victory { reward: Reward },
    Defeat { lost: u64 },
    InvalidItem,
    MustEquipWeapon,
    HealedSelf { amount: u32 },
    TomeStrike { kind: TomeKind, damage: u32, counter: u32 },
    AlreadyPrayed,
    Prayed { heal: u32 },
    Fled,
    FleeFailed { counter: u32 },
    Unknown,
}

pub open spec fn kw_pray() -> Seq<u8> {
    seq![112u8, 114u8, 97u8, 121u8]
}

pub open spec fn kw_run() -> Seq<u8> {
    seq![114u8, 117u8, 110u8]
}

/// A battle chat command.
#[derive(Clone, Copy, Debug, PartialEq, Eq, Structural)]
pub enum BattleCmd {
    Attack,
    Item,
    Pray,
    Run,
    Surrender,
    Other,
}

pub open spec fn spec_battle_cmd(t: Seq<u8>) -> BattleCmd {
    if t == crate::pvp::kw_attack() {
        BattleCmd::Attack
    } else if t == crate::pvp::kw_item() {
        BattleCmd::Item
    } else if t == kw_pray() {
        BattleCmd::Pray
    } else if t == kw_run() {
        BattleCmd::Run
    } else if t == crate::pvp::kw_surrender() {
        BattleCmd::Surrender
    } else {
        BattleCmd::Other
    }
}

pub fn battle_cmd(t: &Vec<u8>) -> (c: BattleCmd)
    ensures
        c == spec_battle_cmd(t@),
{
    let n = t.len();
    if n == 6 && t[0] == 97 && t[1] == 116 && t[2] == 116 && t[3] == 97 && t[4] == 99 && t[5]
        == 107 {
        proof {
            assert(t@ =~= crate::pvp::kw_attack());
        }
        BattleCmd::Attack
    } else if n == 4 && t[0] == 105 && t[1] == 116 && t[2] == 101 && t[3] == 109 {
        proof {
            assert(t@ =~= crate::pvp::kw_item());
        }
        BattleCmd::Item
    } else if n == 4 && t[0] == 112 && t[1] == 114 && t[2] == 97 && t[3] == 121 {
        proof {
            assert(t@ =~= kw_pray());
        }
        BattleCmd::Pray
    } else if n == 3 && t[0] == 114 && t[1] == 117 && t[2] == 110 {
        proof {
            assert(t@ =~= kw_run());
        }
        BattleCmd::Run
    } else if n == 9 && t[0] == 115 && t[1] == 117 && t[2] == 114 && t[3] == 114 && t[4] == 101
        && t[5] == 110 && t[6] == 100 && t[7] == 101 && t[8] == 114 {
        proof {
            assert(t@ =~= crate::pvp::kw_surrender());
        }
        BattleCmd::Surrender
    } else {
        proof {
            assert(t@ != crate::pvp::kw_attack() && t@ != crate::pvp::kw_item() && t@
                != kw_pray() && t@ != kw_run() && t@ != crate::pvp::kw_surrender());
        }
        BattleCmd::Other
    }
}

/// A running mine battle.
#[derive(Clone, Debug)]
pub struct MineBattle {
    pub enemy: Enemy,
    pub sludge_value: u32,
    pub enemy_health: u32,
    pub player_health: u32,
    pub initial_health: u32,
    pub has_prayed: bool,
}

impl MineBattle {
    pub open spec fn wf(self) -> bool {
        &&& self.enemy.wf()
        &&& self.initial_health % 100 == 0
    }

    /// Roll the enemy's health from its range and round it down to a
    /// multiple of one hundred; the player starts at one hundred.
    pub fn new(enemy: Enemy, sludge_value: u32) -> (b: MineBattle)
        requires
            enemy.wf(),
        ensures
            b.wf(),
            b.enemy == enemy,
            b.sludge_value == sludge_value,
            b.enemy_health % 100 == 0,
            b.enemy_health <= enemy.health_hi,
            b.initial_health == b.enemy_health,
            b.player_health == 100,
            !b.has_prayed,
            exists|h: u32|
                enemy.health_lo <= h <= enemy.health_hi && b.enemy_health as int == h - (
                #[trigger] (h as int % 100)),
    {
        let rolled = rng::roll_u32(enemy.health_lo, enemy.health_hi);
        let enemy_health = rolled - (rolled % 100);
        proof {
            assert(enemy_health as int == rolled - (rolled as int % 100));
        }
        MineBattle {
            enemy,
            sludge_value,
            enemy_health,
            player_health: 100,
            initial_health: enemy_health,
            has_prayed: false,
        }
    }

    /// Roll player damage (from the equipped weapon's range, or the bare
    /// zero-to-ten) and apply it to the enemy, flooring at zero.
    pub fn attack(&mut self, equipped: Option<InventoryItem>) -> (damage: u32)
        ensures
            final(self).enemy_health == if damage > old(self).enemy_health {
                0u32
            } else {
                (old(self).enemy_health - damage) as u32
            },
            (match equipped {
                Option::Some(InventoryItem::Weapon { damage_lo, damage_hi, .. }) => damage_lo
                    <= damage && (damage <= damage_hi || damage <= damage_lo),
                _ => 0 <= damage <= 10,
            }),
            *final(self) == (MineBattle { enemy_health: final(self).enemy_health, ..*old(self) }),
    {
        let damage: u32 = match equipped {
            Some(InventoryItem::Weapon { damage_lo, damage_hi, .. }) => {
                let hi = if damage_hi >= damage_lo {
                    damage_hi
                } else {
                    damage_lo
                };
                rng::roll_u32(damage_lo, hi)
            },
            _ => rng::roll_u32(0, 10),
        };
        if damage > self.enemy_health {
            self.enemy_health = 0;
        } else {
            self.enemy_health = self.enemy_health - damage;
        }
        damage
    }

    /// Flight succeeds with probability one over the player's health: easier
    /// to slip away when nearly dead.
    pub fn attempt_flee(&mut self) -> (fled: bool)
        requires
            old(self).player_health > 0,
        ensures
            *final(self) == *old(self),
    {
        rng::roll_u64(0, self.player_health as u64 - 1) == 0
    }

    /// The enemy strikes back with a roll from its own damage range.
    pub fn enemy_turn(&mut self) -> (damage: u32)
        requires
            old(self).enemy.damage_lo <= old(self).enemy.damage_hi,
        ensures
            old(self).enemy.damage_lo <= damage <= old(self).enemy.damage_hi,
            final(self).player_health == if damage > old(self).player_health {
                0u32
            } else {
                (old(self).player_health - damage) as u32
            },
            *final(self) == (MineBattle {
                player_health: final(self).player_health,
                ..*old(self)
            }),
    {
        let damage = rng::roll_u32(self.enemy.damage_lo, self.enemy.damage_hi);
        if damage > self.player_health {
            self.player_health = 0;
        } else {
            self.player_health = self.player_health - damage;
        }
        damage
    }

    /// Healing in the mine battle is intentionally uncapped (unlike the
    /// sludge monster battle); it only stops at the type's ceiling.
    pub fn heal_player(&mut self, amt: u32)
        ensures
            final(self).player_health == if old(self).player_health + amt <= u32::MAX {
                (old(self).player_health + amt) as u32
            } else {
                u32::MAX
            },
            *final(self) == (MineBattle {
                player_health: final(self).player_health,
                ..*old(self)
            }),
    {
        if self.player_health <= u32::MAX - amt {
            self.player_health = self.player_health + amt;
        } else {
            self.player_health = u32::MAX;
        }
    }

    /// A defeated enemy rewards one of three things, chosen uniformly:
    /// currency (scaled by the enemy's initial health when the tier says
    /// so), an item from the drop table (lost when the inventory is full),
    /// or a handful of the secondary currency.
    pub fn handle_win(&mut self, users: &mut Users, user: u64) -> (r: (MineMsg, bool))
        requires
            old(self).wf(),
            old(users).wf(),
        ensures
            final(users).wf(),
            *final(self) == *old(self),
            r.1,
            r.0 is Victory,
            old(users).spec_has(user) ==> final(users).spec_has(user)
                && final(users).spec_file(user).inventory.items@.len() >= old(
                users,
            ).spec_file(user).inventory.items@.len(),
            ({
                let bal = old(users).spec_balance(user);
                match r.0 {
                    MineMsg::Victory { reward } => match reward {
                        Reward::Currency { amount } => {
                            &&& final(users).spec_balance(user) == sat64(bal + amount)
                            &&& (old(self).enemy.reward_scaling ==> exists|roll: u32|
                                old(self).enemy.drops.sludge_lo <= roll <= old(
                                    self,
                                ).enemy.drops.sludge_hi && amount == #[trigger] sat64(
                                    old(self).sludge_value * (
                                    (old(self).initial_health / 100) * roll),
                                ))
                            &&& (!old(self).enemy.reward_scaling ==> exists|roll: u32|
                                old(self).enemy.drops.sludge_lo <= roll <= old(
                                    self,
                                ).enemy.drops.sludge_hi && amount == #[trigger] sat64(
                                    old(self).sludge_value * roll,
                                ))
                        },
                        Reward::Item { item, kept } => {
                            &&& (old(self).enemy.drops.items@.len() > 0 ==> old(
                                self,
                            ).enemy.drops.items@.contains(item))
                            &&& (old(self).enemy.drops.items@.len() == 0 ==> item == (
                            InventoryItem::HealingPotion { health: 10 }))
                            &&& kept == !(old(users).spec_has(user) && old(users).spec_file(
                                user,
                            ).inventory.items@.len() >= crate::items::MAX_INVENTORY_SIZE)
                            &&& (kept ==> final(users).spec_has(user)
                                && final(users).spec_file(user).inventory.items@ == (if old(
                                users,
                            ).spec_has(user) {
                                old(users).spec_file(user).inventory.items@.push(item)
                            } else {
                                seq![item]
                            }))
                            &&& (!kept ==> *final(users) == *old(users))
                            &&& final(users).spec_balance(user) == bal
                        },
                        Reward::SuperNanners { amount } => {
                            &&& 1 <= amount <= 5
                            &&& final(users).spec_balance(user) == bal
                            &&& final(users).spec_has(user)
                            &&& final(users).spec_file(user).super_nanners == (if (if old(
                                users,
                            ).spec_has(user) {
                                old(users).spec_file(user).super_nanners as int
                            } else {
                                0int
                            }) + amount <= u16::MAX {
                                (((if old(users).spec_has(user) {
                                    old(users).spec_file(user).super_nanners as int
                                } else {
                                    0int
                                }) + amount) as u16)
                            } else {
                                u16::MAX
                            })
                        },
                    },
                    _ => false,
                }
            }),
            forall|v: u64|
                v != user ==> old(users).spec_has(v) == final(users).spec_has(v) && (old(
                    users,
                ).spec_has(v) ==> final(users).spec_file(v) == old(users).spec_file(v)),
    {
        let choice = rng::roll_u32(0, 2);
        if choice == 0 {
            let roll = rng::roll_u32(self.enemy.drops.sludge_lo, self.enemy.drops.sludge_hi);
            proof {
                assert(((self.initial_health / 100) as int) * (roll as int) <= 0xffffffffu64
                    * 0xffffffffu64) by (nonlinear_arith)
                    requires
                        0 <= (self.initial_health / 100) as int <= 0xffffffffu64,
                        0 <= roll as int <= 0xffffffffu64,
                {}
            }
            let factor: u64 = if self.enemy.reward_scaling {
                ((self.initial_health / 100) as u64) * (roll as u64)
            } else {
                roll as u64
            };
            let amount = match (self.sludge_value as u64).checked_mul(factor) {
                Some(v) => v,
                None => u64::MAX,
            };
            proof {
                if self.enemy.reward_scaling {
                    assert(amount == sat64(
                        self.sludge_value * ((self.initial_health / 100) * roll),
                    ));
                } else {
                    assert(amount == sat64(self.sludge_value * roll));
                }
            }
            users.credit(user, amount);
            (MineMsg::Victory { reward: Reward::Currency { amount } }, true)
        } else if choice == 1 {
            let item = self.enemy.drops.random_item();
            if users.is_full_of(user) {
                return (MineMsg::Victory { reward: Reward::Item { item, kept: false } }, true);
            }
            users.add_item_to(user, item);
            (MineMsg::Victory { reward: Reward::Item { item, kept: true } }, true)
        } else {
            let amount = rng::roll_u32(1, 5) as u16;
            users.add_super_nanners_to(user, amount);
            (MineMsg::Victory { reward: Reward::SuperNanners { amount } }, true)
        }
    }

    /// A lost battle costs a random slice of the purse: between a fifth and
    /// a half of the current balance.
    pub fn handle_player_death(&mut self, users: &mut Users, user: u64) -> (r: (MineMsg, bool))
        requires
            old(users).wf(),
        ensures
            final(users).wf(),
            *final(self) == *old(self),
            r.1,
            ({
                let bal = old(users).spec_balance(user);
                r.0 matches MineMsg::Defeat { lost } && bal / 5 <= lost <= bal / 2
                    && final(users).spec_balance(user) == bal - lost
            }),
            forall|v: u64|
                v != user ==> old(users).spec_has(v) == final(users).spec_has(v) && (old(
                    users,
                ).spec_has(v) ==> final(users).spec_file(v) == old(users).spec_file(v)),
    {
        let bal = users.get_balance(user);
        let cost = rng::roll_u64(bal / 5, bal / 2);
        users.debit(user, cost);
        (MineMsg::Defeat { lost: cost }, true)
    }

    /// Use an item in the battle. Reports whether the item was consumed,
    /// and the battle result: a healing potion heals without ending the
    /// turn exchange, a spell tome strikes like an attack (and can win the
    /// battle), anything else is rejected.
    pub fn use_item(&mut self, users: &mut Users, user: u64, item: InventoryItem) -> (r: (
        bool,
        (MineMsg, bool),
    ))
        requires
            old(self).wf(),
            old(users).wf(),
        ensures
            final(self).wf(),
            final(users).wf(),
            final(self).enemy == old(self).enemy,
            final(self).initial_health == old(self).initial_health,
            final(self).sludge_value == old(self).sludge_value,
            old(users).spec_has(user) ==> final(users).spec_has(user)
                && final(users).spec_file(user).inventory.items@.len() >= old(
                users,
            ).spec_file(user).inventory.items@.len(),
            ({
                match item {
                    InventoryItem::HealingPotion { health } => r.0 && r.1 == (
                        MineMsg::HealedSelf { amount: health },
                        false,
                    ) && final(self).player_health as int == (if old(self).player_health
                        + health <= u32::MAX {
                        old(self).player_health + health
                    } else {
                        u32::MAX as int
                    }) && final(self).enemy_health == old(self).enemy_health && *final(users)
                        == *old(users),
                    InventoryItem::SpellTome { kind, damage_lo, damage_hi } => r.0 == (kind
                        != TomeKind::Developer) && (r.1.0 is Victory || r.1.0 is TomeStrike)
                        && (r.1.0 is Victory ==> r.1.1 && final(self).enemy_health == 0
                        && final(self).player_health == old(self).player_health) && (
                    r.1.0 matches MineMsg::Victory { reward } ==> (
                    reward matches Reward::Currency { amount } ==> final(users).spec_balance(
                        user,
                    ) == sat64(old(users).spec_balance(user) + amount))) && (
                    r.1.0 matches MineMsg::TomeStrike { kind: k2, damage, counter } ==> ({
                        &&& !r.1.1
                        &&& k2 == kind
                        &&& damage_lo <= damage
                        &&& (damage <= damage_hi || damage <= damage_lo)
                        &&& damage <= old(self).enemy_health
                        &&& final(self).enemy_health == old(self).enemy_health - damage
                        &&& old(self).enemy.damage_lo <= counter <= old(self).enemy.damage_hi
                        &&& final(self).player_health as int == (if counter > old(
                            self,
                        ).player_health {
                            0int
                        } else {
                            old(self).player_health - counter
                        })
                        &&& *final(users) == *old(users)
                    })),
                    InventoryItem::Weapon { .. } => r == (
                        false,
                        (MineMsg::MustEquipWeapon, false),
                    ) && *final(self) == *old(self) && *final(users) == *old(users),
                    _ => r == (false, (MineMsg::InvalidItem, false)) && *final(self) == *old(
                        self,
                    ) && *final(users) == *old(users),
                }
            }),
            forall|v: u64|
                v != user ==> old(users).spec_has(v) == final(users).spec_has(v) && (old(
                    users,
                ).spec_has(v) ==> final(users).spec_file(v) == old(users).spec_file(v)),
    {
        match item {
            InventoryItem::HealingPotion { health } => {
                self.heal_player(health);
                (true, (MineMsg::HealedSelf { amount: health }, false))
            },
            InventoryItem::SpellTome { kind, damage_lo, damage_hi } => {
                let hi = if damage_hi >= damage_lo {
                    damage_hi
                } else {
                    damage_lo
                };
                let damage = rng::roll_u32(damage_lo, hi);
                let used = match kind {
                    TomeKind::Developer => false,
                    _ => true,
                };
                if damage > self.enemy_health {
                    self.enemy_health = 0;
                    let win = self.handle_win(users, user);
                    return (used, win);
                }
                self.enemy_health = self.enemy_health - damage;
                let counter = self.enemy_turn();
                (used, (MineMsg::TomeStrike { kind, damage, counter }, false))
            },
            InventoryItem::Weapon { .. } => (false, (MineMsg::MustEquipWeapon, false)),
            _ => (false, (MineMsg::InvalidItem, false)),
        }
    }

    /// Drive the battle with one free-text chat line: `attack`, `item
    /// <slot>`, `pray` (once per battle), `run`, or `surrender`.
    pub fn handle_message(&mut self, users: &mut Users, user: u64, text: &str) -> (r: (
        MineMsg,
        bool,
    ))
        requires
            old(self).wf(),
            old(users).wf(),
            old(self).player_health > 0,
        ensures
            final(self).wf(),
            final(users).wf(),
            final(self).enemy == old(self).enemy,
            final(self).initial_health == old(self).initial_health,
            !r.1 ==> final(self).player_health > 0,
            ({
                let cmd = spec_battle_cmd(crate::text::nth_token(text.spec_bytes(), 0));
                let bal = old(users).spec_balance(user);
                &&& (cmd == BattleCmd::Pray && old(self).has_prayed ==> r == (
                    MineMsg::AlreadyPrayed,
                    false,
                ) && *final(self) == *old(self) && *final(users) == *old(users))
                &&& (cmd == BattleCmd::Pray && !old(self).has_prayed
                    ==> final(self).player_health as int == (if old(self).player_health < 200 {
                    200int
                } else {
                    old(self).player_health as int
                }) && final(self).has_prayed && !r.1 && *final(users) == *old(users))
                &&& (cmd == BattleCmd::Surrender ==> r.1 && (r.0 matches MineMsg::Defeat { lost }
                    && bal / 5 <= lost <= bal / 2 && final(users).spec_balance(user) == bal
                    - lost))
                &&& (cmd == BattleCmd::Other ==> r == (MineMsg::Unknown, false) && *final(self)
                    == *old(self) && *final(users) == *old(users))
                &&& (r.0 matches MineMsg::Defeat { lost } ==> r.1 && bal / 5 <= lost <= bal / 2
                    && final(users).spec_balance(user) == bal - lost)
                &&& (r.0 matches MineMsg::Victory { reward } ==> r.1 && (
                reward matches Reward::Currency { amount } ==> final(users).spec_balance(user)
                    == sat64(bal + amount)))
                &&& (r.0 is Fled ==> r.1 && *final(self) == *old(self) && *final(users) == *old(
                    users,
                ))
                &&& (r.0 is AttackedEnemy || r.0 is FleeFailed || r.0 is TomeStrike || r.0
                    is HealedSelf || r.0 is InvalidItem || r.0 is MustEquipWeapon ==> !r.1)
                &&& (cmd == BattleCmd::Attack ==> r.0 is AttackedEnemy || r.0 is Victory || r.0
                    is Defeat)
                &&& (cmd == BattleCmd::Run ==> r.0 is Fled || r.0 is FleeFailed || r.0
                    is Defeat)
                &&& (r.0 matches MineMsg::AttackedEnemy { damage, counter, weapon } ==> ({
                    let eq = if old(users).spec_has(user) {
                        old(users).spec_file(user).inventory.equiped
                    } else {
                        Option::<InventoryItem>::None
                    };
                    &&& weapon == (eq matches Option::Some(InventoryItem::Weapon { .. }))
                    &&& (weapon ==> (eq matches Option::Some(InventoryItem::Weapon {
                        damage_lo: wl,
                        damage_hi: wh,
                        ..
                    }) && wl <= damage && (damage <= wh || damage <= wl)))
                    &&& (!weapon ==> damage <= 10)
                    &&& old(self).enemy.damage_lo <= counter <= old(self).enemy.damage_hi
                    &&& damage < old(self).enemy_health
                    &&& final(self).enemy_health == old(self).enemy_health - damage
                    &&& counter < old(self).player_health
                    &&& final(self).player_health == old(self).player_health - counter
                    &&& *final(users) == *old(users)
                }))
                &&& (r.0 is Victory ==> final(self).enemy_health == 0)
                &&& (r.0 is Defeat ==> cmd == BattleCmd::Surrender || final(self).player_health
                    == 0)
                &&& (r.0 matches MineMsg::FleeFailed { counter } ==> old(self).enemy.damage_lo
                    <= counter <= old(self).enemy.damage_hi && counter < old(
                    self,
                ).player_health && final(self).player_health == old(self).player_health
                    - counter && final(self).enemy_health == old(self).enemy_health
                    && *final(users) == *old(users))
                &&& (r.0 matches MineMsg::HealedSelf { amount } ==> ({
                    let slot = crate::text::digits_value(
                        crate::text::nth_token(text.spec_bytes(), 1),
                    );
                    &&& old(users).spec_has(user)
                    &&& (slot matches Option::Some(sv) && 1 <= sv <= 0xffff && (sv - 1) < old(
                        users,
                    ).spec_file(user).inventory.items@.len() && old(users).spec_file(
                        user,
                    ).inventory.items@[sv as int - 1] == (InventoryItem::HealingPotion {
                        health: amount,
                    }) && final(users).spec_file(user).inventory.items@ == old(users).spec_file(
                        user,
                    ).inventory.items@.remove(sv as int - 1))
                    &&& final(self).player_health as int == (if old(self).player_health + amount
                        <= u32::MAX {
                        old(self).player_health + amount
                    } else {
                        u32::MAX as int
                    })
                    &&& final(self).enemy_health == old(self).enemy_health
                    &&& final(users).spec_balance(user) == bal
                }))
                &&& (r.0 matches MineMsg::TomeStrike { kind, damage, counter } ==> ({
                    let slot = crate::text::digits_value(
                        crate::text::nth_token(text.spec_bytes(), 1),
                    );
                    &&& old(users).spec_has(user)
                    &&& (slot matches Option::Some(sv) && 1 <= sv <= 0xffff && (sv - 1) < old(
                        users,
                    ).spec_file(user).inventory.items@.len() && (old(users).spec_file(
                        user,
                    ).inventory.items@[sv as int - 1] matches InventoryItem::SpellTome {
                        kind: k3,
                        damage_lo: tl,
                        damage_hi: th,
                    } && k3 == kind && tl <= damage && (damage <= th || damage <= tl))
                        && final(users).spec_file(user).inventory.items@ == (if kind
                        != TomeKind::Developer {
                        old(users).spec_file(user).inventory.items@.remove(sv as int - 1)
                    } else {
                        old(users).spec_file(user).inventory.items@
                    }))
                    &&& damage <= old(self).enemy_health
                    &&& final(self).enemy_health == old(self).enemy_health - damage
                    &&& old(self).enemy.damage_lo <= counter <= old(self).enemy.damage_hi
                    &&& counter < old(self).player_health
                    &&& final(self).player_health == old(self).player_health - counter
                    &&& final(users).spec_balance(user) == bal
                }))
                &&& (cmd == BattleCmd::Item && ({
                    let slot = crate::text::digits_value(
                        crate::text::nth_token(text.spec_bytes(), 1),
                    );
                    match slot {
                        Option::Some(sv) => 1 <= sv <= 0xffff && old(users).spec_has(user) && (
                        sv - 1) < old(users).spec_file(user).inventory.items@.len() && (old(
                            users,
                        ).spec_file(user).inventory.items@[sv as int - 1] is HealingPotion),
                        Option::None => false,
                    }
                }) ==> r.0 is HealedSelf)
                &&& (cmd == BattleCmd::Item && ({
                    let slot = crate::text::digits_value(
                        crate::text::nth_token(text.spec_bytes(), 1),
                    );
                    match slot {
                        Option::Some(sv) => 1 <= sv <= 0xffff && old(users).spec_has(user) && (
                        sv - 1) < old(users).spec_file(user).inventory.items@.len() && (old(
                            users,
                        ).spec_file(user).inventory.items@[sv as int - 1] is Weapon),
                        Option::None => false,
                    }
                }) ==> r == (MineMsg::MustEquipWeapon, false) && *final(self) == *old(self)
                    && *final(users) == *old(users))
            }),
            forall|v: u64|
                v != user ==> old(users).spec_has(v) == final(users).spec_has(v) && (old(
                    users,
                ).spec_has(v) ==> final(users).spec_file(v) == old(users).spec_file(v)),
    {
        let bytes = text.as_bytes_vec();
        let tok = crate::text::first_token(&bytes);
        let cmd = battle_cmd(&tok);
        match cmd {
            BattleCmd::Attack => {
                let equipped = users.equipped_of(user);
                let weapon = match equipped {
                    Some(InventoryItem::Weapon { .. }) => true,
                    _ => false,
                };
                let damage = self.attack(equipped);
                if self.enemy_health == 0 {
                    return self.handle_win(users, user);
                }
                let counter = self.enemy_turn();
                if self.player_health == 0 {
                    return self.handle_player_death(users, user);
                }
                (MineMsg::AttackedEnemy { damage, counter, weapon }, false)
            },
            BattleCmd::Item => {
                let t1 = crate::text::second_token(&bytes);
                let slot = match crate::text::parse_u64(&t1) {
                    Some(s) => s,
                    None => {
                        return (MineMsg::InvalidItem, false);
                    },
                };
                if slot == 0 || slot > 0xffff {
                    return (MineMsg::InvalidItem, false);
                }
                let idx = (slot - 1) as usize;
                let item = match users.item_at(user, idx) {
                    Some(it) => it,
                    None => {
                        return (MineMsg::InvalidItem, false);
                    },
                };
                let (used, data) = self.use_item(users, user, item);
                if used {
                    users.remove_item_at(user, idx);
                }
                if self.player_health == 0 {
                    return self.handle_player_death(users, user);
                }
                data
            },
            BattleCmd::Pray => {
                if self.has_prayed {
                    return (MineMsg::AlreadyPrayed, false);
                }
                let heal = if self.player_health < 200 {
                    200 - self.player_health
                } else {
                    0
                };
                self.heal_player(heal);
                self.has_prayed = true;
                (MineMsg::Prayed { heal }, false)
            },
            BattleCmd::Run => {
                let fled = self.attempt_flee();
                if fled {
                    return (MineMsg::Fled, true);
                }
                let counter = self.enemy_turn();
                if self.player_health == 0 {
                    return self.handle_player_death(users, user);
                }
                (MineMsg::FleeFailed { counter }, false)
            },
            BattleCmd::Surrender => self.handle_player_death(users, user),
            BattleCmd::Other => (MineMsg::Unknown, false),
        }
    }
}

} // verus!
