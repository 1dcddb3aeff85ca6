use ape_games::blackjack::BlackJack;
use ape_games::pvp::{PvPArena, PvPModFlag};
use ape_games::registry::{GameHandler, GameMsg, Games, GamesManager, JoinError};
use ape_games::sludge::SludgeMonsterBattle;
use ape_games::store::Users;

fn sludge_game() -> Games {
    Games::SludgeMonsterBattle(SludgeMonsterBattle::new())
}

#[test]
fn a_thousand_inserts_yield_a_thousand_distinct_codes() {
    // codes are drawn from a bounded range and must re-roll on collision
    let mut manager = GamesManager::new();
    let mut codes: Vec<usize> = Vec::new();
    for u in 0..1000u64 {
        let handler = GameHandler::new(u, sludge_game());
        let code = manager.insert(handler);
        assert!(code < 100000);
        assert!(!codes.contains(&code), "code {} repeated", code);
        codes.push(code);
    }
    assert_eq!(codes.len(), 1000);
    for c in &codes {
        assert!(manager.code_exists(*c));
    }
}

#[test]
fn a_user_is_in_at_most_one_live_session() {
    let mut manager = GamesManager::new();
    let code = manager.create_session(42, sludge_game()).unwrap();
    assert!(manager.code_exists(code));
    // hosting one session bars creating another
    assert_eq!(
        manager.create_session(42, sludge_game()),
        Err(JoinError::AlreadyInSession)
    );
    // and joining another as a participant
    let arena = PvPArena::new(7, 5, vec![PvPModFlag::MaxPlayers(3)]);
    let arena_code = manager.create_session(7, Games::PvP(arena)).unwrap();
    let mut users = Users::new();
    users.credit(42, 100);
    assert_eq!(
        manager.join_session(&mut users, arena_code, 42),
        Err(JoinError::AlreadyInSession)
    );
    // once the first session ends, the user is free again
    manager.end_game(code);
    assert_eq!(manager.join_session(&mut users, arena_code, 42), Ok(()));
    assert_eq!(users.get_balance(42), 95);
}

#[test]
fn joining_needs_an_existing_joinable_session_and_funds() {
    let mut manager = GamesManager::new();
    let mut users = Users::new();
    assert_eq!(
        manager.join_session(&mut users, 77, 1),
        Err(JoinError::SessionNotFound)
    );
    // blackjack sessions are never joinable
    let bj_code = manager.create_session(5, Games::BlackJack(BlackJack::new(10))).unwrap();
    users.credit(6, 100);
    assert_eq!(
        manager.join_session(&mut users, bj_code, 6),
        Err(JoinError::CapacityExceeded)
    );
    // an arena wants the stake covered
    let arena = PvPArena::new(8, 500, Vec::new());
    let arena_code = manager.create_session(8, Games::PvP(arena)).unwrap();
    assert_eq!(
        manager.join_session(&mut users, arena_code, 6),
        Err(JoinError::InsufficientFunds)
    );
    assert_eq!(users.get_balance(6), 100);
}

#[test]
fn chat_routes_to_the_senders_session_and_removes_it_when_over() {
    let mut manager = GamesManager::new();
    let mut users = Users::new();
    users.credit(30, 10_000);
    let code = manager.create_session(30, sludge_game()).unwrap();
    // a user without a session gets no reply
    assert_eq!(manager.handle_chat_input(&mut users, 31, "attack", None), None);
    let mut rounds = 0u32;
    loop {
        rounds += 1;
        assert!(rounds < 10000, "the battle should end");
        match manager.handle_chat_input(&mut users, 30, "attack", None) {
            Some((GameMsg::Sludge(_), true)) => {
                assert!(!manager.code_exists(code));
                assert_eq!(manager.get_player_game(30), None);
                return;
            }
            Some((GameMsg::Sludge(_), false)) => {
                assert!(manager.code_exists(code));
            }
            other => panic!("unexpected routed reply {:?}", other),
        }
    }
}

#[test]
fn arena_elimination_is_removed_from_the_session() {
    let mut manager = GamesManager::new();
    let mut users = Users::new();
    let arena = PvPArena::new(
        50,
        10,
        vec![PvPModFlag::MaxPlayers(3), PvPModFlag::NoItem, PvPModFlag::DamageRange(50, 50)],
    );
    let code = manager.create_session(50, Games::PvP(arena)).unwrap();
    users.credit(51, 10);
    users.credit(52, 10);
    assert_eq!(manager.join_session(&mut users, code, 51), Ok(()));
    assert_eq!(manager.join_session(&mut users, code, 52), Ok(()));
    let started = manager.handle_chat_input(&mut users, 50, "start", None);
    assert!(matches!(started, Some((GameMsg::Pvp(_), false))));
    // play until one participant is eliminated; the session survives and
    // the eliminated user is free to act elsewhere
    let mut rounds = 0u32;
    loop {
        rounds += 1;
        assert!(rounds < 1000, "someone should fall");
        // find whose turn it is by asking each candidate in order; an
        // out-of-turn attack is rejected without consuming the turn
        for actor in [50u64, 51, 52] {
            if manager.get_player_game(actor) != Some(code) {
                continue;
            }
            // pick another remaining participant as the target; never the
            // host, who stays tied to the session by the host fallback
            let target = [51u64, 52]
                .into_iter()
                .find(|t| *t != actor && manager.get_player_game(*t) == Some(code))
                .unwrap();
            match manager.handle_chat_input(&mut users, actor, "attack", Some(target)) {
                Some((GameMsg::Pvp(ape_games::pvp::PvPMsg::Defeated { target: t, .. }), false)) => {
                    assert_eq!(manager.get_player_game(t), None);
                    assert!(manager.code_exists(code));
                    return;
                }
                Some((GameMsg::Pvp(ape_games::pvp::PvPMsg::ArenaWon { .. }), true)) => {
                    // a surrender-free arena of three should eliminate first
                    panic!("the three-player arena ended without an elimination");
                }
                Some((GameMsg::Pvp(ape_games::pvp::PvPMsg::NotYourTurn), false)) => {
                    continue;
                }
                _ => {
                    break;
                }
            }
        }
    }
}

#[test]
fn ending_a_session_frees_its_code() {
    let mut manager = GamesManager::new();
    let code = manager.create_session(60, sludge_game()).unwrap();
    assert!(manager.code_exists(code));
    manager.end_game(code);
    assert!(!manager.code_exists(code));
    assert_eq!(manager.get_player_game(60), None);
}

#[test]
fn lookup_finds_hosts_and_participants() {
    let mut manager = GamesManager::new();
    let mut users = Users::new();
    let arena = PvPArena::new(70, 0, vec![PvPModFlag::MaxPlayers(4)]);
    let code = manager.create_session(70, Games::PvP(arena)).unwrap();
    users.credit(71, 10);
    manager.join_session(&mut users, code, 71).unwrap();
    assert_eq!(manager.get_player_game(70), Some(code));
    assert_eq!(manager.get_player_game(71), Some(code));
    assert_eq!(manager.find_player_host(70), Some(code));
    assert_eq!(manager.find_player_playing(71), Some(code));
    assert_eq!(manager.get_player_game(72), None);
}
