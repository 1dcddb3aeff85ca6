use ape_games::items::{InventoryItem, TomeKind, WeaponType};
use ape_games::shop::{buy_item, ShopError};
use ape_games::store::Users;

#[test]
fn buying_charges_the_price_and_delivers_the_item() {
    let mut users = Users::new();
    users.add_super_nanners_to(1, 20);
    let bought = buy_item(&mut users, 1, 3, 0).unwrap();
    assert_eq!(
        bought,
        InventoryItem::Weapon { wtype: WeaponType::Stick, damage_lo: 5, damage_hi: 15 }
    );
    assert_eq!(users.get_super_nanners_of(1), 15);
    assert_eq!(users.items_len_of(1), 1);
    assert_eq!(users.item_at(1, 0), Some(bought));
}

#[test]
fn the_catalogue_prices_are_fixed() {
    // one purchase per catalogue number, with its advertised price
    for (item, price) in [(1u64, 15u16), (2, 10), (3, 5), (4, 30), (5, 5), (6, 3), (7, 1), (8, 2), (27, 15)] {
        let mut users = Users::new();
        users.add_super_nanners_to(2, 100);
        buy_item(&mut users, 2, item, 0).unwrap();
        assert_eq!(users.get_super_nanners_of(2), 100 - price, "item {}", item);
    }
}

#[test]
fn a_short_holding_is_rejected_without_change() {
    let mut users = Users::new();
    users.add_super_nanners_to(3, 2);
    assert_eq!(buy_item(&mut users, 3, 4, 0), Err(ShopError::NotEnoughSuperNanners));
    assert_eq!(users.get_super_nanners_of(3), 2);
    assert_eq!(users.items_len_of(3), 0);
}

#[test]
fn unknown_numbers_sell_nothing() {
    let mut users = Users::new();
    users.add_super_nanners_to(4, 50);
    assert_eq!(buy_item(&mut users, 4, 9, 0), Err(ShopError::NoSuchItem));
    assert_eq!(buy_item(&mut users, 4, 0, 0), Err(ShopError::NoSuchItem));
}

#[test]
fn a_second_super_drill_is_never_sold() {
    let mut users = Users::new();
    users.add_super_nanners_to(5, 100);
    buy_item(&mut users, 5, 1, 0).unwrap();
    assert_eq!(buy_item(&mut users, 5, 1, 0), Err(ShopError::AlreadyOwned));
    assert_eq!(users.get_super_nanners_of(5), 85);
}

#[test]
fn a_full_inventory_rejects_purchases() {
    let mut users = Users::new();
    users.add_super_nanners_to(6, 100);
    for _ in 0..64 {
        users.add_item_to(6, InventoryItem::HealingPotion { health: 1 });
    }
    assert_eq!(buy_item(&mut users, 6, 7, 0), Err(ShopError::InventoryFull));
    assert_eq!(users.get_super_nanners_of(6), 100);
}

#[test]
fn bought_minions_start_mining_at_purchase_time() {
    let mut users = Users::new();
    users.add_super_nanners_to(7, 10);
    let bought = buy_item(&mut users, 7, 2, 12345).unwrap();
    match bought {
        InventoryItem::Minion(m) => {
            assert_eq!(m.level, 1);
            assert_eq!(m.mining_start, 12345);
        }
        other => panic!("expected a minion, got {:?}", other),
    }
}

#[test]
fn tomes_come_in_their_named_kinds() {
    let mut users = Users::new();
    users.add_super_nanners_to(8, 10);
    let fireball = buy_item(&mut users, 8, 5, 0).unwrap();
    assert!(matches!(fireball, InventoryItem::SpellTome { kind: TomeKind::Fireball, .. }));
    let winds = buy_item(&mut users, 8, 6, 0).unwrap();
    assert!(matches!(winds, InventoryItem::SpellTome { kind: TomeKind::MightyWinds, .. }));
}
