//! Mine tier data: enemies, their drop tables, and the mined-reward rules.
//! Loading tier files from disk is the shell's concern; the core works on
//! the loaded values.
use vstd::prelude::*;
use crate::items::InventoryItem;
use crate::rng;

verus! {

/// What an enemy can drop: a sludge range and a list of items.
#[derive(Clone, Debug)]
pub struct DropTable {
    pub sludge_lo: u32,
    pub sludge_hi: u32,
    pub items: Vec<InventoryItem>,
}

impl DropTable {
    pub open spec fn wf(self) -> bool {
        self.sludge_lo <= self.sludge_hi
    }

    /// A uniformly random item of the table; an empty table yields the
    /// smallest healing potion.
    pub fn random_item(&self) -> (r: InventoryItem)
        ensures
            self.items@.len() == 0 ==> r == (InventoryItem::HealingPotion { health: 10 }),
            self.items@.len() > 0 ==> self.items@.contains(r),
    {
        if self.items.len() == 0 {
            return InventoryItem::HealingPotion { health: 10 };
        }
        let index = rng::roll_index(self.items.len());
        self.items[index]
    }
}

/// An enemy definition: only the mechanical fields matter to the core;
/// names and art belong to the renderer.
#[derive(Clone, Debug)]
pub struct Enemy {
    pub health_lo: u32,
    pub health_hi: u32,
    pub damage_lo: u32,
    pub damage_hi: u32,
    pub reward_scaling: bool,
    pub drops: DropTable,
}

impl Enemy {
    pub open spec fn wf(self) -> bool {
        &&& self.health_lo <= self.health_hi
        &&& self.damage_lo <= self.damage_hi
        &&& self.drops.wf()
    }

    /// A field-for-field copy, so a battle can own its enemy definition.
    pub fn duplicate(&self) -> (e: Enemy)
        ensures
            e.health_lo == self.health_lo,
            e.health_hi == self.health_hi,
            e.damage_lo == self.damage_lo,
            e.damage_hi == self.damage_hi,
            e.reward_scaling == self.reward_scaling,
            e.drops.sludge_lo == self.drops.sludge_lo,
            e.drops.sludge_hi == self.drops.sludge_hi,
            e.drops.items@ == self.drops.items@,
            self.wf() ==> e.wf(),
    {
        let mut items: Vec<InventoryItem> = Vec::new();
        let mut i: usize = 0;
        while i < self.drops.items.len()
            invariant
                i <= self.drops.items@.len(),
                items@ == self.drops.items@.subrange(0, i as int),
            decreases self.drops.items@.len() - i,
        {
            items.push(self.drops.items[i]);
            proof {
                assert(self.drops.items@.subrange(0, i + 1) == self.drops.items@.subrange(
                    0,
                    i as int,
                ).push(self.drops.items@[i as int]));
            }
            i = i + 1;
        }
        proof {
            assert(self.drops.items@.subrange(0, self.drops.items@.len() as int) == self.drops
                .items@);
        }
        Enemy {
            health_lo: self.health_lo,
            health_hi: self.health_hi,
            damage_lo: self.damage_lo,
            damage_hi: self.damage_hi,
            reward_scaling: self.reward_scaling,
            drops: DropTable {
                sludge_lo: self.drops.sludge_lo,
                sludge_hi: self.drops.sludge_hi,
                items,
            },
        }
    }
}

/// One tier of the mine.
#[derive(Clone, Debug)]
pub struct MineTier {
    pub required_super_drill_tier: u8,
    pub sludge_worth: u32,
    pub super_nanner_chance_permille: u32,
    pub creatures: Vec<Enemy>,
    pub drop_table: DropTable,
}

impl MineTier {
    pub open spec fn wf(self) -> bool {
        &&& forall|i: int| 0 <= i < self.creatures@.len() ==> (#[trigger] self.creatures@[i]).wf()
        &&& self.drop_table.wf()
    }

    /// A uniformly random enemy of the tier.
    pub fn random_enemy(&self) -> (r: &Enemy)
        requires
            self.creatures@.len() > 0,
        ensures
            self.creatures@.contains(*r),
    {
        let index = rng::roll_index(self.creatures.len());
        &self.creatures[index]
    }
}

/// How long one mining run takes: a super drill together with at least one
/// ascension shortens the base minute, to at most ten seconds and at least
/// one second per ascension step.
pub fn mine_duration(has_super_drill: bool, ascension: u16) -> (t: u64)
    ensures
        t == if has_super_drill && ascension != 0 {
            if 60int / (2 * ascension as int) < 10 {
                60int / (2 * ascension as int)
            } else {
                10int
            }
        } else {
            60int
        },
{
    if has_super_drill && ascension != 0 {
        let raw = 60u64 / (2 * ascension as u64);
        if raw < 10 {
            raw
        } else {
            10
        }
    } else {
        60
    }
}

} // verus!
