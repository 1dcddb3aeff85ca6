//! Per-user records: currency, progression (level / prestige / ascension),
//! and the user's inventory. Persistence of these records is the shell's
//! concern; the core works on the authoritative in-memory value.
use vstd::prelude::*;
use crate::items::{Inventory, InventoryItem, Minion, SuperDrill};

verus! {

pub const BASE_PRICE: u64 = 150;

pub const LEVEL_MULTIPLIER: u64 = 75;

pub const ASCENSION_COST: u64 = 1000000;

#[derive(Debug)]
pub struct UserFile {
    pub level: u16,
    pub prestige: u16,
    pub bananas: u64,
    pub super_nanners: u16,
    pub ascension: u16,
    pub mine_tier: u8,
    pub inventory: Inventory,
}

/// A user record bound to its user id.
#[derive(Debug)]
pub struct UserValues {
    pub id: u64,
    pub file: UserFile,
}

impl UserValues {
    /// A fresh record: level one, first prestige, empty purse and inventory.
    pub fn new(id: u64) -> (u: UserValues)
        ensures
            u.id == id,
            u.file.level == 1,
            u.file.prestige == 1,
            u.file.bananas == 0,
            u.file.super_nanners == 0,
            u.file.ascension == 0,
            u.file.mine_tier == 0,
            u.file.inventory.items@.len() == 0,
            u.file.inventory.equiped is None,
            u.file.inventory.wf(),
    {
        UserValues {
            id,
            file: UserFile {
                level: 1,
                prestige: 1,
                bananas: 0,
                super_nanners: 0,
                ascension: 0,
                mine_tier: 0,
                inventory: Inventory::new(),
            },
        }
    }

    /// Price of the next level: a base price plus a per-level surcharge that
    /// scales with the current prestige.
    pub open spec fn spec_levelup_cost(self) -> u64 {
        (BASE_PRICE + self.file.level * (LEVEL_MULTIPLIER * self.file.prestige)) as u64
    }

    pub fn levelup_cost(&self) -> (c: u64)
        ensures
            c == self.spec_levelup_cost(),
    {
        proof {
            assert(self.file.level * (LEVEL_MULTIPLIER * self.file.prestige) < 0x10000u64
                * (75 * 0x10000u64)) by (nonlinear_arith)
                requires
                    self.file.level < 0x10000,
                    self.file.prestige < 0x10000,
            {}
        }
        BASE_PRICE + (self.file.level as u64) * (LEVEL_MULTIPLIER * (self.file.prestige as u64))
    }

    pub open spec fn spec_can_levelup(self) -> bool {
        self.file.bananas >= self.spec_levelup_cost() && self.file.level < 100
    }

    pub fn can_levelup(&self) -> (r: bool)
        ensures
            r == self.spec_can_levelup(),
    {
        let cost = self.levelup_cost();
        self.file.bananas >= cost && self.file.level < 100
    }

    /// Pay the levelling cost and gain one level.
    pub fn levelup(&mut self)
        requires
            old(self).spec_can_levelup(),
        ensures
            final(self).file.level == old(self).file.level + 1,
            final(self).file.bananas == old(self).file.bananas - old(self).spec_levelup_cost(),
            final(self).file.prestige == old(self).file.prestige,
            final(self).file.ascension == old(self).file.ascension,
            final(self).id == old(self).id,
    {
        let cost = self.levelup_cost();
        self.file.bananas = self.file.bananas - cost;
        self.file.level = self.file.level + 1;
    }

    pub open spec fn spec_can_prestige(self) -> bool {
        self.file.level >= 100 && self.file.prestige < 10
    }

    pub fn can_prestige(&self) -> (r: bool)
        ensures
            r == self.spec_can_prestige(),
    {
        self.file.level >= 100 && self.file.prestige < 10
    }

    /// Reset the level to one and advance the prestige; reports the new
    /// prestige.
    pub fn prestige(&mut self) -> (p: u16)
        requires
            old(self).spec_can_prestige(),
        ensures
            final(self).file.level == 1,
            final(self).file.prestige == old(self).file.prestige + 1,
            p == final(self).file.prestige,
            final(self).file.bananas == old(self).file.bananas,
            final(self).id == old(self).id,
    {
        self.file.level = 1;
        self.file.prestige = self.file.prestige + 1;
        self.file.prestige
    }

    pub open spec fn spec_can_ascend(self) -> bool {
        self.file.prestige >= 10 && self.file.bananas >= ASCENSION_COST
    }

    pub fn can_ascend(&self) -> (r: bool)
        ensures
            r == self.spec_can_ascend(),
    {
        self.file.prestige >= 10 && self.file.bananas >= ASCENSION_COST
    }

    /// Pay the ascension cost, reset level and prestige to one, and advance
    /// the ascension counter.
    pub fn ascend(&mut self)
        requires
            old(self).spec_can_ascend(),
            old(self).file.ascension < u16::MAX,
        ensures
            final(self).file.bananas == old(self).file.bananas - ASCENSION_COST,
            final(self).file.prestige == 1,
            final(self).file.level == 1,
            final(self).file.ascension == old(self).file.ascension + 1,
            final(self).id == old(self).id,
    {
        self.file.bananas = self.file.bananas - ASCENSION_COST;
        self.file.prestige = 1;
        self.file.level = 1;
        self.file.ascension = self.file.ascension + 1;
    }

    pub fn get_level(&self) -> (l: u16)
        ensures
            l == self.file.level,
    {
        self.file.level
    }

    pub fn remove_level(&mut self, amt: u16)
        requires
            old(self).file.level >= amt,
        ensures
            final(self).file.level == old(self).file.level - amt,
            *final(self) == (UserValues {
                file: UserFile { level: final(self).file.level, ..old(self).file },
                ..*old(self)
            }),
    {
        self.file.level = self.file.level - amt;
    }

    pub fn get_prestige(&self) -> (p: u16)
        ensures
            p == self.file.prestige,
    {
        self.file.prestige
    }

    pub fn remove_prestige(&mut self, amt: u16)
        requires
            old(self).file.prestige >= amt,
        ensures
            final(self).file.prestige == old(self).file.prestige - amt,
            *final(self) == (UserValues {
                file: UserFile { prestige: final(self).file.prestige, ..old(self).file },
                ..*old(self)
            }),
    {
        self.file.prestige = self.file.prestige - amt;
    }

    pub fn get_ascension(&self) -> (a: u16)
        ensures
            a == self.file.ascension,
    {
        self.file.ascension
    }

    pub fn add_ascension(&mut self)
        requires
            old(self).file.ascension < u16::MAX,
        ensures
            final(self).file.ascension == old(self).file.ascension + 1,
            *final(self) == (UserValues {
                file: UserFile { ascension: final(self).file.ascension, ..old(self).file },
                ..*old(self)
            }),
    {
        self.file.ascension = self.file.ascension + 1;
    }

    pub fn remove_ascension(&mut self)
        requires
            old(self).file.ascension >= 1,
        ensures
            final(self).file.ascension == old(self).file.ascension - 1,
            *final(self) == (UserValues {
                file: UserFile { ascension: final(self).file.ascension, ..old(self).file },
                ..*old(self)
            }),
    {
        self.file.ascension = self.file.ascension - 1;
    }

    pub fn get_bananas(&self) -> (b: u64)
        ensures
            b == self.file.bananas,
    {
        self.file.bananas
    }

    /// Add currency, stopping at the 64-bit ceiling rather than wrapping.
    pub fn add_bananas(&mut self, bananas: u64)
        ensures
            final(self).file.bananas == if old(self).file.bananas + bananas <= u64::MAX {
                (old(self).file.bananas + bananas) as u64
            } else {
                u64::MAX
            },
            final(self).file.level == old(self).file.level,
            final(self).file.prestige == old(self).file.prestige,
            final(self).file.ascension == old(self).file.ascension,
            final(self).file.super_nanners == old(self).file.super_nanners,
            final(self).file.mine_tier == old(self).file.mine_tier,
            final(self).file.inventory == old(self).file.inventory,
            final(self).id == old(self).id,
    {
        if self.file.bananas <= u64::MAX - bananas {
            self.file.bananas = self.file.bananas + bananas;
        } else {
            self.file.bananas = u64::MAX;
        }
    }

    /// Remove currency; the caller establishes that the purse covers it.
    pub fn remove_bananas(&mut self, bananas: u64)
        requires
            old(self).file.bananas >= bananas,
        ensures
            final(self).file.bananas == old(self).file.bananas - bananas,
            final(self).file.level == old(self).file.level,
            final(self).file.prestige == old(self).file.prestige,
            final(self).file.ascension == old(self).file.ascension,
            final(self).file.super_nanners == old(self).file.super_nanners,
            final(self).file.mine_tier == old(self).file.mine_tier,
            final(self).file.inventory == old(self).file.inventory,
            final(self).id == old(self).id,
    {
        self.file.bananas = self.file.bananas - bananas;
    }

    pub fn get_super_nanners(&self) -> (n: u16)
        ensures
            n == self.file.super_nanners,
    {
        self.file.super_nanners
    }

    /// Add the secondary currency, stopping at the 16-bit ceiling.
    pub fn add_super_nanners(&mut self, amt: u16)
        ensures
            final(self).file.super_nanners == if old(self).file.super_nanners + amt
                <= u16::MAX {
                (old(self).file.super_nanners + amt) as u16
            } else {
                u16::MAX
            },
            final(self).file.bananas == old(self).file.bananas,
            final(self).file.inventory == old(self).file.inventory,
            final(self).id == old(self).id,
    {
        if self.file.super_nanners <= u16::MAX - amt {
            self.file.super_nanners = self.file.super_nanners + amt;
        } else {
            self.file.super_nanners = u16::MAX;
        }
    }

    pub fn remove_super_nanners(&mut self, amt: u16)
        requires
            old(self).file.super_nanners >= amt,
        ensures
            final(self).file.super_nanners == old(self).file.super_nanners - amt,
            final(self).file.bananas == old(self).file.bananas,
            final(self).file.inventory == old(self).file.inventory,
            final(self).id == old(self).id,
    {
        self.file.super_nanners = self.file.super_nanners - amt;
    }

    pub fn get_mine_tier(&self) -> (t: u8)
        ensures
            t == self.file.mine_tier,
    {
        self.file.mine_tier
    }

    pub fn set_mine_tier(&mut self, tier: u8)
        ensures
            final(self).file.mine_tier == tier,
            final(self).file.bananas == old(self).file.bananas,
            final(self).id == old(self).id,
    {
        self.file.mine_tier = tier;
    }

    pub fn add_item(&mut self, item: InventoryItem)
        ensures
            final(self).file.inventory.items@ == old(self).file.inventory.items@.push(item),
            final(self).file.inventory.equiped == old(self).file.inventory.equiped,
            final(self).file.bananas == old(self).file.bananas,
            final(self).id == old(self).id,
    {
        self.file.inventory.items.push(item);
    }

    /// A copy of the item list, in slot order.
    pub fn get_items(&self) -> (r: Vec<InventoryItem>)
        ensures
            r@ == self.file.inventory.items@,
    {
        let mut out: Vec<InventoryItem> = Vec::new();
        let mut i: usize = 0;
        while i < self.file.inventory.items.len()
            invariant
                i <= self.file.inventory.items@.len(),
                out@ == self.file.inventory.items@.subrange(0, i as int),
            decreases self.file.inventory.items@.len() - i,
        {
            out.push(self.file.inventory.items[i]);
            proof {
                assert(self.file.inventory.items@.subrange(0, i + 1) == self.file.inventory
                    .items@.subrange(0, i as int).push(self.file.inventory.items@[i as int]));
            }
            i = i + 1;
        }
        proof {
            assert(self.file.inventory.items@.subrange(
                0,
                self.file.inventory.items@.len() as int,
            ) == self.file.inventory.items@);
        }
        out
    }

    /// Drop every copy of the given item from the inventory.
    pub fn remove_item(&mut self, item: InventoryItem)
        ensures
            final(self).file.inventory.items@ == old(self).file.inventory.items@.filter(
                |it: InventoryItem| it != item,
            ),
            final(self).file.inventory.equiped == old(self).file.inventory.equiped,
            final(self).file.bananas == old(self).file.bananas,
            final(self).id == old(self).id,
    {
        let mut out: Vec<InventoryItem> = Vec::new();
        let mut i: usize = 0;
        proof {
            assert(self.file.inventory.items@.subrange(0, 0).filter(
                |it: InventoryItem| it != item,
            ) =~= Seq::<InventoryItem>::empty());
        }
        while i < self.file.inventory.items.len()
            invariant
                i <= self.file.inventory.items@.len(),
                out@ == self.file.inventory.items@.subrange(0, i as int).filter(
                    |it: InventoryItem| it != item,
                ),
            decreases self.file.inventory.items@.len() - i,
        {
            proof {
                assert(self.file.inventory.items@.subrange(0, i + 1).drop_last() == self.file
                    .inventory.items@.subrange(0, i as int));
                assert(self.file.inventory.items@.subrange(0, i + 1).last() == self.file
                    .inventory.items@[i as int]);
                reveal(Seq::filter);
            }
            let it = self.file.inventory.items[i];
            if it != item {
                out.push(it);
            }
            i = i + 1;
        }
        proof {
            assert(self.file.inventory.items@.subrange(
                0,
                self.file.inventory.items@.len() as int,
            ) == self.file.inventory.items@);
        }
        self.file.inventory.items = out;
    }

    pub fn remove_item_index(&mut self, index: usize)
        requires
            index < old(self).file.inventory.items@.len(),
        ensures
            final(self).file.inventory.items@ == old(self).file.inventory.items@.remove(
                index as int,
            ),
            final(self).file.inventory.equiped == old(self).file.inventory.equiped,
            final(self).file.bananas == old(self).file.bananas,
            final(self).id == old(self).id,
    {
        self.file.inventory.items.remove(index);
    }

    pub fn has_super_drill(&self) -> (r: bool)
        ensures
            r == exists|i: int|
                0 <= i < self.file.inventory.items@.len() && (#[trigger] self.file.inventory
                    .items@[i]) is SuperDrill,
    {
        self.file.inventory.get_super_drill().is_some()
    }

    pub fn add_super_drill(&mut self)
        ensures
            final(self).file.inventory.items@ == old(self).file.inventory.items@.push(
                InventoryItem::SuperDrill(SuperDrill { tier: 1 }),
            ),
            final(self).file.bananas == old(self).file.bananas,
            final(self).id == old(self).id,
    {
        self.file.inventory.items.push(InventoryItem::SuperDrill(SuperDrill { tier: 1 }));
    }

    /// Tier of the first super drill carried, or zero without one.
    pub fn get_super_drill_tier(&self) -> (t: u8)
        ensures
            (exists|i: int|
                0 <= i < self.file.inventory.items@.len() && (#[trigger] self.file.inventory
                    .items@[i]) is SuperDrill) ==> exists|i: int|
                0 <= i < self.file.inventory.items@.len() && #[trigger] self.file.inventory
                    .items@[i] == InventoryItem::SuperDrill(SuperDrill { tier: t }),
            !(exists|i: int|
                0 <= i < self.file.inventory.items@.len() && (#[trigger] self.file.inventory
                    .items@[i]) is SuperDrill) ==> t == 0,
    {
        match self.file.inventory.get_super_drill() {
            Some(d) => d.tier,
            None => 0,
        }
    }

    pub fn get_minions(&self) -> (r: Vec<Minion>)
        ensures
            r@ == self.file.inventory.items@.filter(|it: InventoryItem| it is Minion)
                .map_values(|it: InventoryItem| it->Minion_0),
    {
        self.file.inventory.get_minions()
    }

    /// Collect the sludge every minion has produced by `now` and restart all
    /// their production runs at `now`; reports the total collected.
    pub fn collect_minions(&mut self, now: u64) -> (sludge: u64)
        requires
            old(self).file.inventory.items@.len() <= 0xffffffff,
        ensures
            sludge <= 600 * old(self).file.inventory.items@.len(),
            final(self).file.inventory.items@.len() == old(self).file.inventory.items@.len(),
            forall|i: int|
                0 <= i < old(self).file.inventory.items@.len() ==> final(self).file.inventory
                    .items@[i] == (match old(self).file.inventory.items@[i] {
                    InventoryItem::Minion(m) => InventoryItem::Minion(
                        Minion { level: m.level, mining_start: now },
                    ),
                    other => other,
                }),
            final(self).file.bananas == old(self).file.bananas,
            final(self).id == old(self).id,
    {
        let mut sludge: u64 = 0;
        let mut i: usize = 0;
        let n = self.file.inventory.items.len();
        while i < n
            invariant
                i <= n,
                n == self.file.inventory.items@.len(),
                n == old(self).file.inventory.items@.len(),
                n <= 0xffffffff,
                sludge <= 600 * i,
                self.file.bananas == old(self).file.bananas,
                self.id == old(self).id,
                self.file.level == old(self).file.level,
                self.file.prestige == old(self).file.prestige,
                self.file.ascension == old(self).file.ascension,
                self.file.super_nanners == old(self).file.super_nanners,
                self.file.mine_tier == old(self).file.mine_tier,
                self.file.inventory.equiped == old(self).file.inventory.equiped,
                forall|j: int|
                    0 <= j < i ==> self.file.inventory.items@[j] == (
                    match old(self).file.inventory.items@[j] {
                        InventoryItem::Minion(m) => InventoryItem::Minion(
                            Minion { level: m.level, mining_start: now },
                        ),
                        other => other,
                    }),
                forall|j: int|
                    i <= j < n ==> self.file.inventory.items@[j] == old(self).file.inventory
                        .items@[j],
            decreases n - i,
        {
            if let InventoryItem::Minion(m) = self.file.inventory.items[i] {
                let produced = m.get_sludge_produced(now) as u64;
                sludge = sludge + produced;
                self.file.inventory.items.set(
                    i,
                    InventoryItem::Minion(Minion { level: m.level, mining_start: now }),
                );
            }
            i = i + 1;
        }
        sludge
    }
}

#[derive(Debug)]
pub struct GuildFile {
    pub spam_channels: Vec<u64>,
}

/// Per-guild settings bound to the guild id; the only setting the core keeps
/// is the set of channels in which game commands are allowed.
#[derive(Debug)]
pub struct GuildSettings {
    pub id: u64,
    pub file: GuildFile,
}

impl GuildSettings {
    pub fn new(guild_id: u64) -> (g: GuildSettings)
        ensures
            g.id == guild_id,
            g.file.spam_channels@.len() == 0,
    {
        GuildSettings { id: guild_id, file: GuildFile { spam_channels: Vec::new() } }
    }

    pub fn get_channels(&self) -> (r: Vec<u64>)
        ensures
            r@ == self.file.spam_channels@,
    {
        let mut out: Vec<u64> = Vec::new();
        let mut i: usize = 0;
        while i < self.file.spam_channels.len()
            invariant
                i <= self.file.spam_channels@.len(),
                out@ == self.file.spam_channels@.subrange(0, i as int),
            decreases self.file.spam_channels@.len() - i,
        {
            out.push(self.file.spam_channels[i]);
            proof {
                assert(self.file.spam_channels@.subrange(0, i + 1) == self.file.spam_channels@
                    .subrange(0, i as int).push(self.file.spam_channels@[i as int]));
            }
            i = i + 1;
        }
        proof {
            assert(self.file.spam_channels@.subrange(
                0,
                self.file.spam_channels@.len() as int,
            ) == self.file.spam_channels@);
        }
        out
    }

    pub fn add_channel(&mut self, channel_id: u64)
        ensures
            final(self).file.spam_channels@ == old(self).file.spam_channels@.push(channel_id),
            final(self).id == old(self).id,
    {
        self.file.spam_channels.push(channel_id);
    }

    /// Drop every occurrence of the channel from the allowed list.
    pub fn remove_channel(&mut self, channel_id: u64)
        ensures
            final(self).file.spam_channels@ == old(self).file.spam_channels@.filter(
                |c: u64| c != channel_id,
            ),
            final(self).id == old(self).id,
    {
        let mut out: Vec<u64> = Vec::new();
        let mut i: usize = 0;
        proof {
            assert(self.file.spam_channels@.subrange(0, 0).filter(|c: u64| c != channel_id)
                =~= Seq::<u64>::empty());
        }
        while i < self.file.spam_channels.len()
            invariant
                i <= self.file.spam_channels@.len(),
                out@ == self.file.spam_channels@.subrange(0, i as int).filter(
                    |c: u64| c != channel_id,
                ),
            decreases self.file.spam_channels@.len() - i,
        {
            proof {
                assert(self.file.spam_channels@.subrange(0, i + 1).drop_last() == self.file
                    .spam_channels@.subrange(0, i as int));
                assert(self.file.spam_channels@.subrange(0, i + 1).last() == self.file
                    .spam_channels@[i as int]);
                reveal(Seq::filter);
            }
            let c = self.file.spam_channels[i];
            if c != channel_id {
                out.push(c);
            }
            i = i + 1;
        }
        proof {
            assert(self.file.spam_channels@.subrange(
                0,
                self.file.spam_channels@.len() as int,
            ) == self.file.spam_channels@);
        }
        self.file.spam_channels = out;
    }

    /// A channel is allowed when it is listed, or when no channel has been
    /// restricted yet.
    pub fn is_allowed_channel(&self, channel_id: u64) -> (r: bool)
        ensures
            r == (self.file.spam_channels@.contains(channel_id) || self.file.spam_channels@.len()
                == 0),
    {
        if self.file.spam_channels.len() == 0 {
            return true;
        }
        let mut i: usize = 0;
        while i < self.file.spam_channels.len()
            invariant
                i <= self.file.spam_channels@.len(),
                forall|j: int| 0 <= j < i ==> self.file.spam_channels@[j] != channel_id,
            decreases self.file.spam_channels@.len() - i,
        {
            if self.file.spam_channels[i] == channel_id {
                return true;
            }
            i = i + 1;
        }
        false
    }
}

} // verus!
