use ape_games::items::InventoryItem;
use ape_games::pvp::{ArmKind, PvPArena, PvPModFlag, PvPMsg};
use ape_games::store::Users;

fn two_player_arena(stake: u64) -> PvPArena {
    let flags = vec![PvPModFlag::NoItem, PvPModFlag::DamageRange(0, 10)];
    let mut arena = PvPArena::new(1, stake, flags);
    arena.add_player(2);
    arena
}

#[test]
fn flags_configure_the_arena() {
    let flags = vec![
        PvPModFlag::MaxPlayers(4),
        PvPModFlag::CustomStartHealth(80),
        PvPModFlag::CustomMaxHealth(120),
        PvPModFlag::DamageRange(3, 7),
        PvPModFlag::NoItem,
    ];
    let arena = PvPArena::new(9, 50, flags);
    assert_eq!(arena.max_players, 4);
    assert_eq!(arena.base_health, 80);
    assert_eq!(arena.max_health, 120);
    assert_eq!(arena.damage_lo, 3);
    assert_eq!(arena.damage_hi, 7);
    assert!(!arena.enable_items);
    assert_eq!(arena.players.len(), 1);
    assert_eq!(arena.players[0].user, 9);
}

#[test]
fn start_needs_two_players() {
    let mut arena = PvPArena::new(1, 10, Vec::new());
    let mut users = Users::new();
    let r = arena.handle_prestart_message(&mut users, 1, "start", None);
    assert_eq!(r, Some((PvPMsg::NotEnoughPlayers, false, None)));
    assert!(!arena.is_running());
    arena.add_player(2);
    let r2 = arena.handle_prestart_message(&mut users, 1, "start", None);
    assert!(matches!(r2, Some((PvPMsg::ArenaStarted { .. }, false, None))));
    assert!(arena.is_running());
}

#[test]
fn only_the_host_may_start_or_end() {
    let mut arena = two_player_arena(10);
    let mut users = Users::new();
    assert_eq!(arena.handle_prestart_message(&mut users, 2, "start", None), None);
    assert_eq!(arena.handle_prestart_message(&mut users, 2, "end", None), None);
}

#[test]
fn cancelling_refunds_every_participant() {
    // both participants were debited the stake at entry; the host's `end`
    // restores both balances exactly
    let stake = 40u64;
    let mut users = Users::new();
    users.credit(1, 100);
    users.credit(2, 250);
    assert!(users.debit(1, stake));
    assert!(users.debit(2, stake));
    let mut arena = two_player_arena(stake);
    let r = arena.handle_prestart_message(&mut users, 1, "end", None);
    assert_eq!(r, Some((PvPMsg::ArenaClosed, true, None)));
    assert_eq!(users.get_balance(1), 100);
    assert_eq!(users.get_balance(2), 250);
}

#[test]
fn attacks_alternate_turns_until_a_winner_takes_the_pot() {
    // two participants, base health 100, damage zero to ten, items off:
    // attacks alternate the turn pointer and the winner gains stake * 2
    let stake = 30u64;
    let mut users = Users::new();
    let mut arena = two_player_arena(stake);
    assert!(matches!(
        arena.handle_prestart_message(&mut users, 1, "start", None),
        Some((PvPMsg::ArenaStarted { .. }, _, _))
    ));
    let mut rounds = 0u32;
    loop {
        rounds += 1;
        assert!(rounds < 10000, "the arena should finish");
        let actor = arena.players[arena.turn as usize].user;
        let turn_before = arena.turn;
        let r = arena.handle_message(&mut users, actor, "attack", None).unwrap();
        match r {
            (PvPMsg::Attacked { attacker, damage, arm, .. }, false, None) => {
                assert_eq!(attacker, actor);
                assert!(damage <= 10);
                assert_eq!(arm, ArmKind::Fists);
                // the pointer moved to the other participant
                assert_ne!(arena.turn, turn_before);
            }
            (PvPMsg::ArenaWon { winner, pot }, true, None) => {
                assert_eq!(winner, actor);
                assert_eq!(pot, stake * 2);
                assert_eq!(users.get_balance(actor), pot);
                break;
            }
            other => panic!("unexpected arena reply {:?}", other),
        }
    }
}

#[test]
fn acting_out_of_turn_is_rejected() {
    let mut users = Users::new();
    let mut arena = two_player_arena(5);
    arena.handle_prestart_message(&mut users, 1, "start", None);
    let waiting = arena.players[(1 - arena.turn) as usize].user;
    let r = arena.handle_message(&mut users, waiting, "attack", None);
    assert_eq!(r, Some((PvPMsg::NotYourTurn, false, None)));
}

#[test]
fn surrender_splits_the_stake_share_and_ends_a_duel() {
    let stake = 60u64;
    let mut users = Users::new();
    let mut arena = two_player_arena(stake);
    arena.handle_prestart_message(&mut users, 1, "start", None);
    let r = arena.handle_message(&mut users, 2, "surrender", None).unwrap();
    match r {
        (PvPMsg::ArenaWon { winner, pot }, true, None) => {
            assert_eq!(winner, 1);
            assert_eq!(pot, stake * 2);
            // the winner received the surrendered share plus the pot
            assert_eq!(users.get_balance(1), stake / 2 + pot);
        }
        other => panic!("unexpected arena reply {:?}", other),
    }
}

#[test]
fn items_disabled_arenas_reject_item_use() {
    let mut users = Users::new();
    let mut arena = two_player_arena(5);
    arena.handle_prestart_message(&mut users, 1, "start", None);
    let actor = arena.players[arena.turn as usize].user;
    let turn_before = arena.turn;
    let r = arena.handle_message(&mut users, actor, "item 1", None);
    assert_eq!(r, Some((PvPMsg::ItemsDisabled, false, None)));
    // the failed action did not consume the turn
    assert_eq!(arena.turn, turn_before);
}

#[test]
fn crowded_arenas_demand_a_named_target() {
    let mut users = Users::new();
    let flags = vec![PvPModFlag::MaxPlayers(3), PvPModFlag::NoItem];
    let mut arena = PvPArena::new(1, 5, flags);
    arena.add_player(2);
    arena.add_player(3);
    arena.handle_prestart_message(&mut users, 1, "start", None);
    let actor = arena.players[arena.turn as usize].user;
    let turn_before = arena.turn;
    // no mention at all
    let r = arena.handle_message(&mut users, actor, "attack", None);
    assert_eq!(r, Some((PvPMsg::MustPickTarget, false, None)));
    assert_eq!(arena.turn, turn_before);
    // a mention of someone outside the arena
    let r2 = arena.handle_message(&mut users, actor, "attack", Some(99));
    assert_eq!(r2, Some((PvPMsg::TargetNotFound, false, None)));
    assert_eq!(arena.turn, turn_before);
}

#[test]
fn unusable_item_slots_are_rejected() {
    let mut users = Users::new();
    let flags = vec![PvPModFlag::MaxPlayers(2)];
    let mut arena = PvPArena::new(1, 5, flags);
    arena.add_player(2);
    arena.handle_prestart_message(&mut users, 1, "start", None);
    let actor = arena.players[arena.turn as usize].user;
    let turn_before = arena.turn;
    // an empty inventory has no slot one
    let r = arena.handle_message(&mut users, actor, "item 1", None);
    assert_eq!(r, Some((PvPMsg::InvalidItem, false, None)));
    assert_eq!(arena.turn, turn_before);
    // a slot number that is no number at all
    let r2 = arena.handle_message(&mut users, actor, "item one", None);
    assert_eq!(r2, Some((PvPMsg::InvalidItem, false, None)));
}

#[test]
fn list_names_every_participant() {
    let mut users = Users::new();
    let mut arena = two_player_arena(5);
    let r = arena.handle_prestart_message(&mut users, 2, "list", None);
    match r {
        Some((PvPMsg::PlayerList { players }, false, None)) => {
            assert_eq!(players, vec![1, 2]);
        }
        other => panic!("unexpected arena reply {:?}", other),
    }
}

#[test]
fn kick_removes_and_refunds_the_target() {
    let mut users = Users::new();
    let mut arena = two_player_arena(25);
    let r = arena.handle_prestart_message(&mut users, 1, "kick", Some(2));
    assert_eq!(r, Some((PvPMsg::Kicked { target: 2 }, false, Some(2))));
    assert_eq!(arena.players.len(), 1);
    assert_eq!(users.get_balance(2), 25);
}

#[test]
fn healing_is_capped_at_the_configured_maximum() {
    let mut users = Users::new();
    let flags = vec![PvPModFlag::CustomMaxHealth(100)];
    let mut arena = PvPArena::new(1, 0, flags);
    arena.add_player(2);
    arena.handle_prestart_message(&mut users, 1, "start", None);
    users.add_item_to(1, InventoryItem::HealingPotion { health: 500 });
    users.add_item_to(2, InventoryItem::HealingPotion { health: 500 });
    let actor = arena.players[arena.turn as usize].user;
    let r = arena.handle_message(&mut users, actor, "item 1", None).unwrap();
    match r {
        (PvPMsg::Healed { user, amount, health }, false, None) => {
            assert_eq!(user, actor);
            assert_eq!(amount, 500);
            assert_eq!(health, 100);
        }
        other => panic!("unexpected arena reply {:?}", other),
    }
    // the potion was consumed
    assert_eq!(users.items_len_of(actor), 0);
}
