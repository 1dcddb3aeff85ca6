use ape_games::items::{InventoryItem, TomeKind};
use ape_games::mine_battle::{MineBattle, MineMsg, Reward};
use ape_games::mine_data::{DropTable, Enemy, MineTier, mine_duration};
use ape_games::sludge::{SludgeMonsterBattle, SludgeMsg};
use ape_games::store::Users;

fn fixed_enemy() -> Enemy {
    Enemy {
        health_lo: 300,
        health_hi: 399,
        damage_lo: 0,
        damage_hi: 5,
        reward_scaling: true,
        drops: DropTable { sludge_lo: 7, sludge_hi: 7, items: Vec::new() },
    }
}

#[test]
fn mine_battle_health_rolls_to_a_multiple_of_one_hundred() {
    let b = MineBattle::new(fixed_enemy(), 5);
    assert_eq!(b.enemy_health, 300);
    assert_eq!(b.initial_health, 300);
    assert_eq!(b.player_health, 100);
    assert!(!b.has_prayed);
}

#[test]
fn scaled_currency_reward_follows_the_formula() {
    // enemy health rolled to 300 with reward scaling on: a currency win
    // pays sludge_value * (floor(300 / 100) * roll) = 5 * (3 * 7) = 105
    let mut attempts = 0u32;
    loop {
        attempts += 1;
        assert!(attempts < 2000, "a currency reward should come up");
        let mut users = Users::new();
        let mut b = MineBattle::new(fixed_enemy(), 5);
        b.enemy_health = 1;
        let (msg, done) = b.handle_message(&mut users, 11, "attack");
        match msg {
            MineMsg::Victory { reward: Reward::Currency { amount } } => {
                assert!(done);
                assert_eq!(amount, 105);
                assert_eq!(users.get_balance(11), 105);
                return;
            }
            MineMsg::Victory { .. } => continue,
            MineMsg::AttackedEnemy { .. } => continue,
            MineMsg::Defeat { .. } => continue,
            other => panic!("unexpected battle reply {:?}", other),
        }
    }
}

#[test]
fn super_nanner_rewards_stay_in_range() {
    let mut attempts = 0u32;
    loop {
        attempts += 1;
        assert!(attempts < 2000, "a super nanner reward should come up");
        let mut users = Users::new();
        let mut b = MineBattle::new(fixed_enemy(), 5);
        b.enemy_health = 1;
        let (msg, _) = b.handle_message(&mut users, 12, "attack");
        if let MineMsg::Victory { reward: Reward::SuperNanners { amount } } = msg {
            assert!((1..=5).contains(&amount));
            return;
        }
    }
}

#[test]
fn praying_heals_to_two_hundred_once() {
    let mut users = Users::new();
    let mut b = MineBattle::new(fixed_enemy(), 5);
    b.player_health = 40;
    let (msg, done) = b.handle_message(&mut users, 13, "pray");
    assert_eq!(msg, MineMsg::Prayed { heal: 160 });
    assert!(!done);
    assert_eq!(b.player_health, 200);
    let (again, _) = b.handle_message(&mut users, 13, "pray");
    assert_eq!(again, MineMsg::AlreadyPrayed);
}

#[test]
fn mine_healing_is_not_capped() {
    // the mine battle deliberately lets healing push past one hundred
    let mut users = Users::new();
    let mut b = MineBattle::new(fixed_enemy(), 5);
    users.add_item_to(14, InventoryItem::HealingPotion { health: 500 });
    let (msg, _) = b.handle_message(&mut users, 14, "item 1");
    assert_eq!(msg, MineMsg::HealedSelf { amount: 500 });
    assert_eq!(b.player_health, 600);
    assert_eq!(users.items_len_of(14), 0);
}

#[test]
fn surrendering_costs_a_slice_of_the_purse() {
    let mut users = Users::new();
    users.credit(15, 1000);
    let mut b = MineBattle::new(fixed_enemy(), 5);
    let (msg, done) = b.handle_message(&mut users, 15, "surrender");
    assert!(done);
    match msg {
        MineMsg::Defeat { lost } => {
            assert!((200..=500).contains(&lost));
            assert_eq!(users.get_balance(15), 1000 - lost);
        }
        other => panic!("unexpected battle reply {:?}", other),
    }
}

#[test]
fn weapons_must_be_equipped_not_used_from_a_slot() {
    let mut users = Users::new();
    let mut b = MineBattle::new(fixed_enemy(), 5);
    users.add_item_to(
        16,
        InventoryItem::Weapon {
            wtype: ape_games::items::WeaponType::Sword,
            damage_lo: 5,
            damage_hi: 9,
        },
    );
    let (msg, _) = b.handle_message(&mut users, 16, "item 1");
    assert_eq!(msg, MineMsg::MustEquipWeapon);
    // the weapon stays in the inventory
    assert_eq!(users.items_len_of(16), 1);
}

#[test]
fn developer_tome_is_never_consumed() {
    let mut users = Users::new();
    let mut b = MineBattle::new(fixed_enemy(), 5);
    b.enemy_health = 100000;
    users.add_item_to(
        17,
        InventoryItem::SpellTome { kind: TomeKind::Developer, damage_lo: 1, damage_hi: 1 },
    );
    let (msg, _) = b.handle_message(&mut users, 17, "item 1");
    assert!(matches!(msg, MineMsg::TomeStrike { kind: TomeKind::Developer, .. }));
    assert_eq!(users.items_len_of(17), 1);
}

#[test]
fn battle_item_slots_must_exist() {
    let mut users = Users::new();
    let mut b = MineBattle::new(fixed_enemy(), 5);
    let (msg, _) = b.handle_message(&mut users, 18, "item 1");
    assert_eq!(msg, MineMsg::InvalidItem);
    let (msg2, _) = b.handle_message(&mut users, 18, "item zero");
    assert_eq!(msg2, MineMsg::InvalidItem);
    let (msg3, _) = b.handle_message(&mut users, 18, "grumble");
    assert_eq!(msg3, MineMsg::Unknown);
}

#[test]
fn sludge_boss_health_is_one_to_five_hundred() {
    for _ in 0..20 {
        let b = SludgeMonsterBattle::new();
        assert!(b.boss_health >= 100 && b.boss_health <= 500);
        assert_eq!(b.boss_health % 100, 0);
        assert_eq!(b.initial_health, b.boss_health);
        assert_eq!(b.player_health, 100);
    }
}

#[test]
fn sludge_reward_bracket_follows_the_initial_health() {
    let mut attempts = 0u32;
    loop {
        attempts += 1;
        assert!(attempts < 2000, "the boss should fall");
        let mut users = Users::new();
        let mut b = SludgeMonsterBattle::new();
        b.initial_health = 300;
        b.boss_health = 1;
        let (msg, done) = b.handle_message(&mut users, 21, "attack");
        match msg {
            SludgeMsg::BossDefeated { reward } => {
                assert!(done);
                assert!((10_000..=50_000).contains(&reward));
                assert_eq!(reward % 1000, 0);
                assert_eq!(users.get_balance(21), reward);
                return;
            }
            SludgeMsg::AttackedBoss { .. } | SludgeMsg::Defeat { .. } => continue,
            other => panic!("unexpected battle reply {:?}", other),
        }
    }
}

#[test]
fn sludge_healing_caps_at_one_hundred() {
    let mut b = SludgeMonsterBattle::new();
    b.player_health = 90;
    b.heal_player(50);
    assert_eq!(b.player_health, 100);
    b.player_health = 30;
    b.heal_player(25);
    assert_eq!(b.player_health, 55);
}

#[test]
fn sludge_defeat_costs_at_most_two_thousand() {
    let mut users = Users::new();
    users.credit(22, 5000);
    let mut b = SludgeMonsterBattle::new();
    let (msg, done) = b.handle_message(&mut users, 22, "surrender");
    assert!(done);
    match msg {
        SludgeMsg::Defeat { lost } => {
            assert!((100..=2000).contains(&lost));
            assert_eq!(users.get_balance(22), 5000 - lost);
        }
        other => panic!("unexpected battle reply {:?}", other),
    }
}

#[test]
fn drop_tables_fall_back_to_a_small_potion() {
    let empty = DropTable { sludge_lo: 1, sludge_hi: 3, items: Vec::new() };
    assert_eq!(empty.random_item(), InventoryItem::HealingPotion { health: 10 });
    let stocked = DropTable {
        sludge_lo: 1,
        sludge_hi: 3,
        items: vec![InventoryItem::HealingPotion { health: 25 }],
    };
    assert_eq!(stocked.random_item(), InventoryItem::HealingPotion { health: 25 });
}

#[test]
fn mine_tiers_pick_an_enemy_from_their_roster() {
    let tier = MineTier {
        required_super_drill_tier: 0,
        sludge_worth: 5,
        super_nanner_chance_permille: 100,
        creatures: vec![fixed_enemy()],
        drop_table: DropTable { sludge_lo: 1, sludge_hi: 2, items: Vec::new() },
    };
    let e = tier.random_enemy();
    assert_eq!(e.health_lo, 300);
}

#[test]
fn mining_time_shrinks_with_a_drill_and_ascensions() {
    assert_eq!(mine_duration(false, 5), 60);
    assert_eq!(mine_duration(true, 0), 60);
    assert_eq!(mine_duration(true, 1), 10);
    assert_eq!(mine_duration(true, 3), 10);
    assert_eq!(mine_duration(true, 6), 5);
    assert_eq!(mine_duration(true, 30), 1);
}
