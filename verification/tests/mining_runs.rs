use ape_games::items::{InventoryItem, SuperDrill};
use ape_games::mine_data::{DropTable, Enemy, MineTier};
use ape_games::mining::{MineEvent, MiningSet, finish_mine};
use ape_games::store::Users;

fn tier(required_drill: u8, nanner_permille: u32) -> MineTier {
    MineTier {
        required_super_drill_tier: required_drill,
        sludge_worth: 250,
        super_nanner_chance_permille: nanner_permille,
        creatures: vec![Enemy {
            health_lo: 100,
            health_hi: 599,
            damage_lo: 0,
            damage_hi: 25,
            reward_scaling: true,
            drops: DropTable { sludge_lo: 1, sludge_hi: 10, items: Vec::new() },
        }],
        drop_table: DropTable { sludge_lo: 1, sludge_hi: 10, items: Vec::new() },
    }
}

#[test]
fn one_mining_run_per_user_at_a_time() {
    let mut mining = MiningSet::new();
    assert!(!mining.contains(4));
    assert!(mining.begin(4));
    assert!(mining.contains(4));
    // a second run cannot start while one is in flight
    assert!(!mining.begin(4));
    // other users are independent
    assert!(mining.begin(5));
    mining.finish(4);
    assert!(!mining.contains(4));
    assert!(mining.contains(5));
    assert!(mining.begin(4));
}

#[test]
fn mining_without_the_required_drill_fails() {
    let mut users = Users::new();
    users.credit(6, 100);
    // the tier wants at least drill tier one; the user has none
    let ev = finish_mine(&mut users, 6, &tier(1, 1000));
    assert!(matches!(ev, MineEvent::NeedBetterDrill));
    assert_eq!(users.get_balance(6), 100);
}

#[test]
fn mined_sludge_pays_the_tier_worth() {
    // with a drill far above the requirement and super nanners effectively
    // off, runs resolve to sludge, nothing, an item, or a creature
    let t = tier(0, 1000);
    let mut saw_sludge = false;
    for _ in 0..300 {
        let mut users = Users::new();
        users.add_item_to(7, InventoryItem::SuperDrill(SuperDrill { tier: 3 }));
        match finish_mine(&mut users, 7, &t) {
            MineEvent::Mined { sludge, value } => {
                assert!((1..=10).contains(&sludge));
                assert_eq!(value, sludge as u64 * 250);
                assert_eq!(users.get_balance(7), value);
                saw_sludge = true;
            }
            MineEvent::NothingMined => assert_eq!(users.get_balance(7), 0),
            MineEvent::Creature { battle } => {
                assert_eq!(battle.player_health, 100);
                assert_eq!(battle.sludge_value, 250);
                assert_eq!(battle.enemy_health % 100, 0);
            }
            MineEvent::ItemFound { kept, .. } => assert!(kept),
            MineEvent::SuperNanner => {}
            MineEvent::NeedBetterDrill => panic!("the drill requirement was met"),
        }
    }
    assert!(saw_sludge, "several hundred runs should mine some sludge");
}
