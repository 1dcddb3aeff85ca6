//! The mining flow: the single-in-flight-per-user set of running mining
//! jobs, and the resolution of a finished run. The delay itself (sleeping
//! until the run completes) is the shell's job; the decisions here are the
//! core's.
use vstd::prelude::*;
use crate::items::InventoryItem;
use crate::mine_battle::MineBattle;
use crate::mine_data::MineTier;
use crate::store::{Users, sat64};
use crate::rng;

verus! {

/// The users whose mining run is still in flight; a user has at most one.
pub struct MiningSet {
    pub list: Vec<u64>,
}

impl MiningSet {
    pub open spec fn spec_contains(self, user: u64) -> bool {
        self.list@.contains(user)
    }

    pub fn new() -> (s: MiningSet)
        ensures
            s.list@.len() == 0,
    {
        MiningSet { list: Vec::new() }
    }

    pub fn contains(&self, user: u64) -> (r: bool)
        ensures
            r == self.spec_contains(user),
    {
        let mut i: usize = 0;
        while i < self.list.len()
            invariant
                i <= self.list@.len(),
                forall|j: int| 0 <= j < i ==> self.list@[j] != user,
            decreases self.list@.len() - i,
        {
            if self.list[i] == user {
                return true;
            }
            i = i + 1;
        }
        false
    }

    /// Mark the user as mining; a user already mining cannot start a second
    /// run, so the call reports whether it began one.
    pub fn begin(&mut self, user: u64) -> (started: bool)
        ensures
            started == !old(self).spec_contains(user),
            started ==> final(self).list@ == old(self).list@.push(user),
            !started ==> final(self).list@ == old(self).list@,
            final(self).spec_contains(user),
    {
        if self.contains(user) {
            return false;
        }
        self.list.push(user);
        proof {
            assert(self.list@.last() == user);
        }
        true
    }

    /// Clear the user's run when it completes.
    pub fn finish(&mut self, user: u64)
        ensures
            !final(self).spec_contains(user),
            forall|u: u64|
                final(self).list@.contains(u) == (old(self).list@.contains(u) && u != user),
    {
        let mut out: Vec<u64> = Vec::new();
        let mut i: usize = 0;
        while i < self.list.len()
            invariant
                i <= self.list@.len(),
                forall|u: u64|
                    out@.contains(u) == (old(self).list@.subrange(0, i as int).contains(u) && u
                        != user),
                self.list@ == old(self).list@,
            decreases self.list@.len() - i,
        {
            let p = self.list[i];
            let ghost prev = out@;
            if p != user {
                out.push(p);
            }
            proof {
                let sub1 = old(self).list@.subrange(0, i + 1);
                let sub0 = old(self).list@.subrange(0, i as int);
                assert(sub1.drop_last() == sub0);
                assert(sub1.last() == p);
                assert forall|u: u64| out@.contains(u) == (sub1.contains(u) && u != user) by {
                    if out@.contains(u) {
                        let k = choose|k: int| 0 <= k < out@.len() && out@[k] == u;
                        if k < prev.len() {
                            assert(prev[k] == u);
                            assert(prev.contains(u));
                            let m = choose|m: int| 0 <= m < sub0.len() && sub0[m] == u;
                            assert(sub1[m] == u);
                        } else {
                            assert(u == p);
                            assert(sub1[sub1.len() - 1] == u);
                        }
                    }
                    if sub1.contains(u) && u != user {
                        let m = choose|m: int| 0 <= m < sub1.len() && sub1[m] == u;
                        if m < sub0.len() {
                            assert(sub0[m] == u);
                            assert(prev.contains(u));
                            let k = choose|k: int| 0 <= k < prev.len() && prev[k] == u;
                            assert(out@[k] == u);
                        } else {
                            assert(u == p);
                            assert(out@.last() == u);
                        }
                    }
                }
            }
            i = i + 1;
        }
        proof {
            assert(old(self).list@.subrange(0, old(self).list@.len() as int) == old(
                self,
            ).list@);
        }
        self.list = out;
    }
}

/// How a finished mining run resolved.
#[derive(Clone, Debug)]
pub enum MineEvent {
    NeedBetterDrill,
    Creature { battle: MineBattle },
    SuperNanner,
    ItemFound { item: InventoryItem, kept: bool },
    NothingMined,
    Mined { sludge: u32, value: u64 },
}

/// Resolve a finished mining run on the user's tier: the tier may demand a
/// better drill; an eighth of runs rouse a creature; otherwise a super
/// nanner, an item drop, nothing, or one to ten sludge paid out at the
/// tier's worth.
pub fn finish_mine(users: &mut Users, user: u64, tier: &MineTier) -> (r: MineEvent)
    requires
        old(users).wf(),
        tier.wf(),
        tier.creatures@.len() > 0,
    ensures
        final(users).wf(),
        (r is NeedBetterDrill) <==> tier.required_super_drill_tier >= old(users).spec_drill_tier(
            user,
        ),
        ({
            let bal = old(users).spec_balance(user);
            match r {
                MineEvent::NeedBetterDrill => *final(users) == *old(users),
                MineEvent::Creature { battle } => *final(users) == *old(users) && battle.wf()
                    && battle.player_health == 100 && battle.sludge_value == tier.sludge_worth,
                MineEvent::SuperNanner => final(users).spec_balance(user) == bal
                    && final(users).spec_has(user)
                    && final(users).spec_file(user).super_nanners as int == (if (
                if old(users).spec_has(user) {
                    old(users).spec_file(user).super_nanners as int
                } else {
                    0int
                }) + 1 <= u16::MAX {
                    (if old(users).spec_has(user) {
                        old(users).spec_file(user).super_nanners as int
                    } else {
                        0int
                    }) + 1
                } else {
                    u16::MAX as int
                }),
                MineEvent::ItemFound { item, kept } => final(users).spec_balance(user) == bal
                    && (tier.drop_table.items@.len() > 0 ==> tier.drop_table.items@.contains(
                    item,
                )) && (tier.drop_table.items@.len() == 0 ==> item == (
                InventoryItem::HealingPotion { health: 10 })) && kept == !(old(
                    users,
                ).spec_has(user) && old(users).spec_file(user).inventory.items@.len()
                    >= crate::items::MAX_INVENTORY_SIZE) && (kept ==> final(users).spec_has(
                    user,
                ) && final(users).spec_file(user).inventory.items@ == (if old(users).spec_has(
                    user,
                ) {
                    old(users).spec_file(user).inventory.items@.push(item)
                } else {
                    seq![item]
                })) && (!kept ==> *final(users) == *old(users)),
                MineEvent::NothingMined => *final(users) == *old(users),
                MineEvent::Mined { sludge, value } => 1 <= sludge <= 10 && value == sludge
                    * tier.sludge_worth && final(users).spec_balance(user) == sat64(
                    bal + value,
                ),
            }
        }),
        forall|v: u64|
            v != user ==> old(users).spec_has(v) == final(users).spec_has(v) && (old(
                users,
            ).spec_has(v) ==> final(users).spec_file(v) == old(users).spec_file(v)),
{
    let drill = users.super_drill_tier_of(user);
    if tier.required_super_drill_tier >= drill {
        return MineEvent::NeedBetterDrill;
    }
    if rng::roll_u32(0, 7) == 0 {
        let enemy = tier.random_enemy().duplicate();
        let battle = MineBattle::new(enemy, tier.sludge_worth);
        return MineEvent::Creature { battle };
    }
    let nanner_roll = rng::roll_u32(0, 999);
    if tier.super_nanner_chance_permille <= nanner_roll {
        users.add_super_nanners_to(user, 1);
        return MineEvent::SuperNanner;
    }
    let drop_roll = rng::roll_u32(0, 999);
    if drop_roll < 200 {
        let item = tier.drop_table.random_item();
        if users.is_full_of(user) {
            return MineEvent::ItemFound { item, kept: false };
        }
        users.add_item_to(user, item);
        return MineEvent::ItemFound { item, kept: true };
    }
    let sludge = rng::roll_u32(0, 10);
    if sludge == 0 {
        return MineEvent::NothingMined;
    }
    proof {
        assert((sludge as int) * (tier.sludge_worth as int) <= 10 * 0xffffffffu64)
            by (nonlinear_arith)
            requires
                0 <= sludge as int <= 10,
                0 <= tier.sludge_worth as int <= 0xffffffffu64,
        {}
    }
    let value = (sludge as u64) * (tier.sludge_worth as u64);
    users.credit(user, value);
    MineEvent::Mined { sludge, value }
}

} // verus!
