//! Inventory items and the per-user inventory.
//!
//! Items are plain values: damage ranges are inclusive integer bounds, and a
//! spell tome is identified by its kind rather than a display name (display
//! is the renderer's concern, outside this core).
use vstd::prelude::*;

verus! {

pub const MAX_INVENTORY_SIZE: u8 = 64;

/// Cap on sludge a minion can accumulate before collection.
pub const MINION_BASE_MAX_SLUDGE: u32 = 600;

pub const MINION_PRODUCTION_PER_HOUR: u32 = 20;

#[derive(Clone, Copy, Debug, PartialEq, Eq, Structural)]
pub enum WeaponType {
    Sword,
    Bow,
    Stick,
}

#[derive(Clone, Copy, Debug, PartialEq, Eq, Structural)]
pub enum TomeKind {
    Fireball,
    MightyWinds,
    Mog,
    Developer,
    Other,
}

#[derive(Clone, Copy, Debug, PartialEq, Eq, Structural)]
pub struct SuperDrill {
    pub tier: u8,
}

/// A sludge-producing minion; `mining_start` is the epoch second its current
/// production run began. The core takes the current time as an argument.
#[derive(Clone, Copy, Debug, PartialEq, Eq, Structural)]
pub struct Minion {
    pub level: u8,
    pub mining_start: u64,
}

impl Minion {
    pub fn new(now: u64) -> (m: Minion)
        ensures
            m == (Minion { level: 1, mining_start: now }),
    {
        Minion { level: 1, mining_start: now }
    }

    pub open spec fn spec_hourly_production(self) -> u32 {
        (MINION_PRODUCTION_PER_HOUR * self.level) as u32
    }

    pub fn minute_sludge_production(&self) -> (r: u32)
        ensures
            r == self.spec_hourly_production(),
    {
        MINION_PRODUCTION_PER_HOUR * (self.level as u32)
    }

    /// Sludge accumulated since `mining_start`, at the hourly rate, capped at
    /// the minion maximum; a clock that reads earlier than the start yields
    /// nothing.
    pub open spec fn spec_sludge_produced(self, now: u64) -> u32 {
        if now <= self.mining_start {
            0
        } else {
            let raw = self.spec_hourly_production() * (now - self.mining_start) / 3600;
            if raw > MINION_BASE_MAX_SLUDGE {
                MINION_BASE_MAX_SLUDGE
            } else {
                raw as u32
            }
        }
    }

    pub fn get_sludge_produced(&self, now: u64) -> (r: u32)
        ensures
            r == self.spec_sludge_produced(now),
            r <= MINION_BASE_MAX_SLUDGE,
    {
        if now <= self.mining_start {
            return 0;
        }
        let rate = self.minute_sludge_production() as u64;
        let dt = now - self.mining_start;
        if rate == 0 {
            proof {
                assert(self.spec_hourly_production() == 0);
                assert(self.spec_hourly_production() * (now - self.mining_start) == 0)
                    by (nonlinear_arith)
                    requires
                        self.spec_hourly_production() == 0,
                {}
                assert(self.spec_sludge_produced(now) == 0);
            }
            return 0;
        }
        if dt >= 2163600 {
            // at one unit per hour or more, over 601 hours already exceed the cap
            proof {
                assert(rate * dt >= dt) by (nonlinear_arith)
                    requires
                        rate >= 1,
                        dt >= 0,
                {}
                assert(rate * dt / 3600 >= dt / 3600) by (nonlinear_arith)
                    requires
                        rate * dt >= dt >= 0,
                {}
                assert(dt / 3600 >= 601);
            }
            return MINION_BASE_MAX_SLUDGE;
        }
        proof {
            assert(rate * dt <= 5100 * 2163600) by (nonlinear_arith)
                requires
                    0 <= rate <= 5100,
                    0 <= dt <= 2163600,
            {}
        }
        let raw = rate * dt / 3600;
        if raw > MINION_BASE_MAX_SLUDGE as u64 {
            MINION_BASE_MAX_SLUDGE
        } else {
            raw as u32
        }
    }

    pub fn is_full(&self, now: u64) -> (r: bool)
        ensures
            r == (self.spec_sludge_produced(now) >= MINION_BASE_MAX_SLUDGE),
    {
        self.get_sludge_produced(now) >= MINION_BASE_MAX_SLUDGE
    }

    /// Restart the production run at the given time.
    pub fn mine(&mut self, now: u64)
        ensures
            *final(self) == (Minion { level: old(self).level, mining_start: now }),
    {
        self.mining_start = now;
    }
}

#[derive(Clone, Copy, Debug, PartialEq, Eq, Structural)]
pub enum InventoryItem {
    Minion(Minion),
    SuperDrill(SuperDrill),
    HealingPotion { health: u32 },
    SpellTome { kind: TomeKind, damage_lo: u32, damage_hi: u32 },
    Weapon { wtype: WeaponType, damage_lo: u32, damage_hi: u32 },
}

impl InventoryItem {
    /// Damage ranges carried by tomes and weapons must be non-empty so a roll
    /// from them is always possible.
    pub open spec fn wf(self) -> bool {
        match self {
            InventoryItem::SpellTome { damage_lo, damage_hi, .. } => damage_lo <= damage_hi,
            InventoryItem::Weapon { damage_lo, damage_hi, .. } => damage_lo <= damage_hi,
            _ => true,
        }
    }
}

/// All items of a user, plus the equipped weapon slot.
#[derive(Clone, Debug)]
pub struct Inventory {
    pub items: Vec<InventoryItem>,
    pub equiped: Option<InventoryItem>,
}

impl Inventory {
    pub open spec fn wf(self) -> bool {
        &&& forall|i: int| 0 <= i < self.items@.len() ==> (#[trigger] self.items@[i]).wf()
        &&& match self.equiped {
            Option::Some(it) => it.wf(),
            Option::None => true,
        }
    }

    pub fn new() -> (inv: Inventory)
        ensures
            inv.items@.len() == 0,
            inv.equiped is None,
            inv.wf(),
    {
        Inventory { items: Vec::new(), equiped: None }
    }

    /// Equip the item in `index` when it is a weapon: it moves from the item
    /// list to the equipped slot and the call reports success; anything else
    /// stays put and the call reports failure.
    pub fn equip(&mut self, index: u32) -> (r: bool)
        requires
            index < old(self).items@.len(),
        ensures
            r == (old(self).items@[index as int] is Weapon),
            r ==> final(self).equiped == Option::Some(old(self).items@[index as int]),
            r ==> final(self).items@ == old(self).items@.remove(index as int),
            !r ==> *final(self) == *old(self),
    {
        let item = self.items[index as usize];
        if let InventoryItem::Weapon { .. } = item {
            self.equiped = Some(item);
            self.items.remove(index as usize);
            true
        } else {
            false
        }
    }

    pub fn get_equipped(&self) -> (r: Option<InventoryItem>)
        ensures
            r == self.equiped,
    {
        self.equiped
    }

    /// Return the equipped item (if any) to the item list and clear the slot.
    pub fn unequip(&mut self)
        ensures
            final(self).equiped is None,
            match old(self).equiped {
                Option::Some(it) => final(self).items@ == old(self).items@.push(it),
                Option::None => final(self).items@ == old(self).items@,
            },
    {
        if let Some(item) = self.equiped {
            self.items.push(item);
        }
        self.equiped = None;
    }

    /// All minions in the item list, in order.
    pub fn get_minions(&self) -> (r: Vec<Minion>)
        ensures
            r@ == self.items@.filter(|it: InventoryItem| it is Minion).map_values(
                |it: InventoryItem| it->Minion_0,
            ),
    {
        let mut minions: Vec<Minion> = Vec::new();
        let mut i: usize = 0;
        proof {
            assert(self.items@.subrange(0, 0) =~= Seq::<InventoryItem>::empty());
            assert(self.items@.subrange(0, 0).filter(|it: InventoryItem| it is Minion)
                =~= Seq::<InventoryItem>::empty());
        }
        while i < self.items.len()
            invariant
                i <= self.items@.len(),
                minions@ == self.items@.subrange(0, i as int).filter(
                    |it: InventoryItem| it is Minion,
                ).map_values(|it: InventoryItem| it->Minion_0),
            decreases self.items@.len() - i,
        {
            proof {
                assert(self.items@.subrange(0, i + 1).drop_last() == self.items@.subrange(
                    0,
                    i as int,
                ));
                assert(self.items@.subrange(0, i + 1).last() == self.items@[i as int]);
                reveal(Seq::filter);
            }
            if let InventoryItem::Minion(m) = self.items[i] {
                minions.push(m);
            }
            i = i + 1;
        }
        proof {
            assert(self.items@.subrange(0, self.items@.len() as int) == self.items@);
        }
        minions
    }

    /// The first super drill in the item list, if any.
    pub fn get_super_drill(&self) -> (r: Option<SuperDrill>)
        ensures
            r is Some <==> exists|i: int|
                0 <= i < self.items@.len() && (#[trigger] self.items@[i]) is SuperDrill,
            match r {
                Option::Some(d) => exists|i: int|
                    0 <= i < self.items@.len() && #[trigger] self.items@[i]
                        == InventoryItem::SuperDrill(d) && forall|j: int|
                        0 <= j < i ==> !((#[trigger] self.items@[j]) is SuperDrill),
                Option::None => true,
            },
    {
        let mut i: usize = 0;
        while i < self.items.len()
            invariant
                i <= self.items@.len(),
                forall|j: int| 0 <= j < i ==> !((#[trigger] self.items@[j]) is SuperDrill),
            decreases self.items@.len() - i,
        {
            if let InventoryItem::SuperDrill(d) = self.items[i] {
                return Some(d);
            }
            i = i + 1;
        }
        None
    }

    pub fn is_full(&self) -> (r: bool)
        ensures
            r == (self.items@.len() >= MAX_INVENTORY_SIZE),
    {
        self.items.len() >= MAX_INVENTORY_SIZE as usize
    }
}

} // verus!
