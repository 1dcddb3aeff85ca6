use ape_games::items::{Inventory, InventoryItem, Minion, SuperDrill, WeaponType};
use ape_games::store::Users;
use ape_games::userdata::{GuildSettings, UserValues};

#[test]
fn balances_credit_and_debit_exactly() {
    let mut users = Users::new();
    assert_eq!(users.get_balance(1), 0);
    users.credit(1, 300);
    assert_eq!(users.get_balance(1), 300);
    assert!(users.debit(1, 120));
    assert_eq!(users.get_balance(1), 180);
    assert!(!users.debit(1, 500));
    assert_eq!(users.get_balance(1), 180);
    // other users are untouched
    users.credit(2, 50);
    assert_eq!(users.get_balance(1), 180);
    assert_eq!(users.get_balance(2), 50);
}

#[test]
fn escrow_then_refund_restores_the_balance() {
    let mut users = Users::new();
    users.credit(3, 775);
    assert!(users.debit(3, 75));
    users.credit(3, 75);
    assert_eq!(users.get_balance(3), 775);
}

#[test]
fn levelling_costs_follow_the_price_formula() {
    let mut u = UserValues::new(9);
    assert_eq!(u.levelup_cost(), 150 + 1 * (75 * 1));
    u.file.level = 10;
    u.file.prestige = 3;
    assert_eq!(u.levelup_cost(), 150 + 10 * (75 * 3));
    u.file.bananas = 10_000;
    assert!(u.can_levelup());
    let cost = u.levelup_cost();
    u.levelup();
    assert_eq!(u.file.level, 11);
    assert_eq!(u.file.bananas, 10_000 - cost);
}

#[test]
fn prestige_and_ascension_reset_progress() {
    let mut u = UserValues::new(9);
    u.file.level = 100;
    assert!(u.can_prestige());
    let p = u.prestige();
    assert_eq!(p, 2);
    assert_eq!(u.file.level, 1);
    u.file.prestige = 10;
    u.file.bananas = 1_500_000;
    assert!(u.can_ascend());
    u.ascend();
    assert_eq!(u.file.bananas, 500_000);
    assert_eq!(u.file.prestige, 1);
    assert_eq!(u.file.ascension, 1);
}

#[test]
fn banana_arithmetic_saturates_and_checks() {
    let mut u = UserValues::new(9);
    u.add_bananas(u64::MAX);
    u.add_bananas(10);
    assert_eq!(u.get_bananas(), u64::MAX);
    u.remove_bananas(5);
    assert_eq!(u.get_bananas(), u64::MAX - 5);
}

#[test]
fn equipping_moves_a_weapon_out_of_the_item_list() {
    let mut inv = Inventory::new();
    inv.items.push(InventoryItem::HealingPotion { health: 10 });
    inv.items.push(InventoryItem::Weapon {
        wtype: WeaponType::Bow,
        damage_lo: 2,
        damage_hi: 8,
    });
    // a potion cannot be equipped
    assert!(!inv.equip(0));
    assert_eq!(inv.items.len(), 2);
    // the bow can
    assert!(inv.equip(1));
    assert_eq!(inv.items.len(), 1);
    assert!(matches!(inv.get_equipped(), Some(InventoryItem::Weapon { .. })));
    inv.unequip();
    assert!(inv.get_equipped().is_none());
    assert_eq!(inv.items.len(), 2);
}

#[test]
fn minions_and_drills_are_found_in_the_list() {
    let mut inv = Inventory::new();
    inv.items.push(InventoryItem::Minion(Minion::new(0)));
    inv.items.push(InventoryItem::SuperDrill(SuperDrill { tier: 2 }));
    inv.items.push(InventoryItem::Minion(Minion { level: 3, mining_start: 7 }));
    let minions = inv.get_minions();
    assert_eq!(minions.len(), 2);
    assert_eq!(minions[1].level, 3);
    assert_eq!(inv.get_super_drill(), Some(SuperDrill { tier: 2 }));
    assert!(!inv.is_full());
}

#[test]
fn inventory_fills_at_sixty_four_items() {
    let mut inv = Inventory::new();
    for _ in 0..64 {
        inv.items.push(InventoryItem::HealingPotion { health: 1 });
    }
    assert!(inv.is_full());
}

#[test]
fn minion_production_accrues_hourly_and_caps() {
    let m = Minion { level: 1, mining_start: 0 };
    assert_eq!(m.get_sludge_produced(0), 0);
    assert_eq!(m.get_sludge_produced(3600), 20);
    assert_eq!(m.get_sludge_produced(1800), 10);
    // thirty hours of production hits the cap
    assert_eq!(m.get_sludge_produced(3600 * 40), 600);
    assert!(m.is_full(3600 * 40));
    let fast = Minion { level: 3, mining_start: 0 };
    assert_eq!(fast.get_sludge_produced(3600), 60);
}

#[test]
fn collecting_minions_sums_and_restarts_production() {
    let mut u = UserValues::new(9);
    u.add_item(InventoryItem::Minion(Minion { level: 1, mining_start: 0 }));
    u.add_item(InventoryItem::Minion(Minion { level: 2, mining_start: 0 }));
    u.add_item(InventoryItem::HealingPotion { health: 5 });
    let sludge = u.collect_minions(3600);
    assert_eq!(sludge, 20 + 40);
    // the runs restarted: an immediate second collection yields nothing
    assert_eq!(u.collect_minions(3600), 0);
}

#[test]
fn super_drill_tier_is_zero_without_one() {
    let mut u = UserValues::new(9);
    assert!(!u.has_super_drill());
    assert_eq!(u.get_super_drill_tier(), 0);
    u.add_super_drill();
    assert!(u.has_super_drill());
    assert_eq!(u.get_super_drill_tier(), 1);
}

#[test]
fn admin_adjustments_move_single_steps() {
    let mut u = UserValues::new(9);
    u.file.level = 5;
    u.file.prestige = 4;
    u.remove_level(2);
    u.remove_prestige(1);
    u.add_ascension();
    assert_eq!(u.get_level(), 3);
    assert_eq!(u.get_prestige(), 3);
    assert_eq!(u.get_ascension(), 1);
    u.remove_ascension();
    assert_eq!(u.get_ascension(), 0);
}

#[test]
fn removing_an_item_by_value_drops_every_copy() {
    let mut u = UserValues::new(9);
    u.add_item(InventoryItem::HealingPotion { health: 10 });
    u.add_item(InventoryItem::HealingPotion { health: 25 });
    u.add_item(InventoryItem::HealingPotion { health: 10 });
    u.remove_item(InventoryItem::HealingPotion { health: 10 });
    assert_eq!(u.get_items(), vec![InventoryItem::HealingPotion { health: 25 }]);
}

#[test]
fn guild_channels_gate_game_commands() {
    let mut g = GuildSettings::new(500);
    // with no restriction every channel is allowed
    assert!(g.is_allowed_channel(1));
    g.add_channel(10);
    g.add_channel(11);
    assert!(g.is_allowed_channel(10));
    assert!(!g.is_allowed_channel(1));
    g.remove_channel(10);
    assert!(!g.is_allowed_channel(10));
    assert!(g.is_allowed_channel(11));
    assert_eq!(g.get_channels(), vec![11]);
}
