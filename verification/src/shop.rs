//! The item shop: a fixed catalogue bought with the secondary currency.
//! Every purchase is check-then-act: a rejected purchase changes nothing.
use vstd::prelude::*;
use crate::items::{InventoryItem, Minion, SuperDrill, TomeKind, WeaponType};
use crate::store::Users;

verus! {

/// Why a purchase was refused.
#[derive(Clone, Copy, Debug, PartialEq, Eq, Structural)]
pub enum ShopError {
    NoSuchItem,
    InventoryFull,
    AlreadyOwned,
    NotEnoughSuperNanners,
}

/// The catalogue entry for a shop number, if it is one.
pub open spec fn spec_catalog(item: u64, now: u64) -> Option<(InventoryItem, u16)> {
    if item == 1 {
        Option::Some((InventoryItem::SuperDrill(SuperDrill { tier: 1 }), 15u16))
    } else if item == 2 {
        Option::Some((InventoryItem::Minion(Minion { level: 1, mining_start: now }), 10u16))
    } else if item == 3 {
        Option::Some(
            (
                InventoryItem::Weapon { wtype: WeaponType::Stick, damage_lo: 5, damage_hi: 15 },
                5u16,
            ),
        )
    } else if item == 4 {
        Option::Some(
            (
                InventoryItem::Weapon { wtype: WeaponType::Sword, damage_lo: 50, damage_hi: 100 },
                30u16,
            ),
        )
    } else if item == 5 {
        Option::Some(
            (
                InventoryItem::SpellTome { kind: TomeKind::Fireball, damage_lo: 25, damage_hi: 40 },
                5u16,
            ),
        )
    } else if item == 6 {
        Option::Some(
            (
                InventoryItem::SpellTome {
                    kind: TomeKind::MightyWinds,
                    damage_lo: 5,
                    damage_hi: 25,
                },
                3u16,
            ),
        )
    } else if item == 7 {
        Option::Some((InventoryItem::HealingPotion { health: 10 }, 1u16))
    } else if item == 8 {
        Option::Some((InventoryItem::HealingPotion { health: 25 }, 2u16))
    } else if item == 27 {
        Option::Some(
            (
                InventoryItem::Weapon { wtype: WeaponType::Sword, damage_lo: 25, damage_hi: 30 },
                15u16,
            ),
        )
    } else {
        Option::None
    }
}

/// Buy a catalogue item: the price in super nanners is checked and then
/// charged, the item lands in the user's inventory, and a rejected purchase
/// leaves the store untouched. A second super drill is never sold.
pub fn buy_item(users: &mut Users, user: u64, item: u64, now: u64) -> (r: Result<
    InventoryItem,
    ShopError,
>)
    requires
        old(users).wf(),
    ensures
        final(users).wf(),
        r is Err ==> *final(users) == *old(users),
        spec_catalog(item, now) is None <==> r == Result::<InventoryItem, ShopError>::Err(
            ShopError::NoSuchItem,
        ),
        (spec_catalog(item, now) matches Option::Some((it, price)) ==> ({
            let full = old(users).spec_has(user) && old(users).spec_file(
                user,
            ).inventory.items@.len() >= crate::items::MAX_INVENTORY_SIZE;
            let dup = item == 1 && old(users).spec_has(user) && (exists|i: int|
                0 <= i < old(users).spec_file(user).inventory.items@.len() && (#[trigger] old(
                    users,
                ).spec_file(user).inventory.items@[i]) is SuperDrill);
            let holding = if old(users).spec_has(user) {
                old(users).spec_file(user).super_nanners
            } else {
                0u16
            };
            &&& ((r == Result::<InventoryItem, ShopError>::Err(ShopError::InventoryFull))
                <==> full)
            &&& (!full ==> ((r == Result::<InventoryItem, ShopError>::Err(
                ShopError::AlreadyOwned,
            )) <==> dup))
            &&& (!full && !dup ==> ((r == Result::<InventoryItem, ShopError>::Err(
                ShopError::NotEnoughSuperNanners,
            )) <==> holding < price))
            &&& (!full && !dup && holding >= price ==> r is Ok)
        })),
        (r matches Result::Ok(bought) ==> ({
            let (it, price) = spec_catalog(item, now).unwrap();
            &&& bought == it
            &&& old(users).spec_has(user)
            &&& final(users).spec_file(user).super_nanners == old(users).spec_file(
                user,
            ).super_nanners - price
            &&& final(users).spec_file(user).inventory.items@ == old(users).spec_file(
                user,
            ).inventory.items@.push(it)
            &&& final(users).spec_balance(user) == old(users).spec_balance(user)
        })),
        forall|v: u64|
            v != user ==> old(users).spec_has(v) == final(users).spec_has(v) && (old(
                users,
            ).spec_has(v) ==> final(users).spec_file(v) == old(users).spec_file(v)),
{
    let entry: (InventoryItem, u16) = if item == 1 {
        (InventoryItem::SuperDrill(SuperDrill { tier: 1 }), 15)
    } else if item == 2 {
        (InventoryItem::Minion(Minion { level: 1, mining_start: now }), 10)
    } else if item == 3 {
        (InventoryItem::Weapon { wtype: WeaponType::Stick, damage_lo: 5, damage_hi: 15 }, 5)
    } else if item == 4 {
        (InventoryItem::Weapon { wtype: WeaponType::Sword, damage_lo: 50, damage_hi: 100 }, 30)
    } else if item == 5 {
        (InventoryItem::SpellTome { kind: TomeKind::Fireball, damage_lo: 25, damage_hi: 40 }, 5)
    } else if item == 6 {
        (
            InventoryItem::SpellTome { kind: TomeKind::MightyWinds, damage_lo: 5, damage_hi: 25 },
            3,
        )
    } else if item == 7 {
        (InventoryItem::HealingPotion { health: 10 }, 1)
    } else if item == 8 {
        (InventoryItem::HealingPotion { health: 25 }, 2)
    } else if item == 27 {
        (InventoryItem::Weapon { wtype: WeaponType::Sword, damage_lo: 25, damage_hi: 30 }, 15)
    } else {
        return Err(ShopError::NoSuchItem);
    };
    if users.is_full_of(user) {
        return Err(ShopError::InventoryFull);
    }
    if item == 1 && users.has_super_drill_of(user) {
        return Err(ShopError::AlreadyOwned);
    }
    let (it, price) = entry;
    if !users.debit_super_nanners(user, price) {
        return Err(ShopError::NotEnoughSuperNanners);
    }
    users.add_item_to(user, it);
    Ok(it)
}

} // verus!
