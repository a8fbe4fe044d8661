use gennia_server::errors::{OptionKey, RoomError};
use gennia_server::pool::RoomPoolStore;

fn join(store: &mut RoomPoolStore, sock: &str, room: &str, pid: &str, name: &str) {
    store
        .add_player(
            sock.to_string(),
            room.to_string(),
            pid.to_string(),
            name.to_string(),
        )
        .unwrap();
}

#[test]
fn create_room_starts_with_defaults() {
    let mut store = RoomPoolStore::default();
    store.create_room("abcd".to_string()).unwrap();
    assert_eq!(store.pool.len(), 1);
    let room = &store.pool[0].room;
    assert_eq!(store.pool[0].id, "abcd");
    assert_eq!(room.game_options.room_name, "Untitled");
    assert_eq!(room.game_options.max_players, 8);
    assert_eq!(room.game_options.game_speed, 1000);
    assert_eq!(room.game_options.map_width, 500);
    assert_eq!(room.game_options.swamp, 0);
    assert!(room.game_options.fog_of_war);
    assert!(room.game_options.death_spectating);
    assert!(!room.game_options.reveal_king);
    assert!(!room.game_options.warring_state);
    assert!(!room.game_started);
    assert!(room.players.is_empty());
}

#[test]
fn pool_at_capacity_refuses_then_accepts_after_shrinking() {
    let mut store = RoomPoolStore::default();
    for id in ["r1", "r2", "r3", "r4", "r5"] {
        store.create_room(id.to_string()).unwrap();
    }
    assert_eq!(
        store.create_room("r6".to_string()),
        Err(RoomError::CapacityExceeded)
    );
    store.pool.pop();
    store.create_room("r6".to_string()).unwrap();
    let listed = store.serialize();
    assert!(listed.iter().any(|m| m.id == "r6"));
    assert_eq!(listed.len(), 5);
}

#[test]
fn create_room_with_known_id_resets_that_room() {
    let mut store = RoomPoolStore::default();
    store.create_room("abcd".to_string()).unwrap();
    join(&mut store, "s1", "abcd", "p1", "alice");
    store.create_room("abcd".to_string()).unwrap();
    assert_eq!(store.pool.len(), 1);
    assert!(store.pool[0].room.players.is_empty());
}

#[test]
fn find_or_create_is_idempotent() {
    let mut store = RoomPoolStore::default();
    store.find_or_create_room("abcd".to_string()).unwrap();
    store.find_or_create_room("abcd".to_string()).unwrap();
    assert_eq!(store.pool.len(), 1);
}

#[test]
fn add_player_to_unknown_room_fails() {
    let mut store = RoomPoolStore::default();
    let r = store.add_player(
        "s1".to_string(),
        "none".to_string(),
        "p1".to_string(),
        "alice".to_string(),
    );
    assert_eq!(r.unwrap_err(), RoomError::RoomNotFound);
}

#[test]
fn first_player_becomes_host_with_lowest_color_and_team() {
    let mut store = RoomPoolStore::default();
    store.create_room("abcd".to_string()).unwrap();
    let p = store
        .add_player(
            "s1".to_string(),
            "abcd".to_string(),
            "p1".to_string(),
            "alice".to_string(),
        )
        .unwrap();
    assert!(p.is_room_host);
    assert_eq!(p.color, 1);
    assert_eq!(p.team, 1);
    assert!(!p.force_start);
    assert_eq!(p.last_operate_turn, 0);
    let q = store
        .add_player(
            "s2".to_string(),
            "abcd".to_string(),
            "p2".to_string(),
            "bob".to_string(),
        )
        .unwrap();
    assert!(!q.is_room_host);
    assert_eq!(q.color, 2);
    assert_eq!(q.team, 2);
}

#[test]
fn join_reuses_freed_low_color() {
    let mut store = RoomPoolStore::default();
    store.create_room("abcd".to_string()).unwrap();
    join(&mut store, "s1", "abcd", "p1", "alice");
    join(&mut store, "s2", "abcd", "p2", "bob");
    // the first player leaves; the next join takes the lowest free color
    store.pool[0].room.players.remove(0);
    store.pool[0].room.players[0].is_room_host = true;
    let p = store
        .add_player(
            "s3".to_string(),
            "abcd".to_string(),
            "p3".to_string(),
            "carol".to_string(),
        )
        .unwrap();
    assert_eq!(p.color, 1);
    assert_eq!(p.team, 1);
}

#[test]
fn full_room_rejects_next_join() {
    let mut store = RoomPoolStore::default();
    store.create_room("abcd".to_string()).unwrap();
    for n in 0..8 {
        join(
            &mut store,
            &format!("s{n}"),
            "abcd",
            &format!("p{n}"),
            &format!("u{n}"),
        );
    }
    assert_eq!(store.pool[0].room.players.len(), 8);
    let r = store.add_player(
        "s9".to_string(),
        "abcd".to_string(),
        "p9".to_string(),
        "late".to_string(),
    );
    assert_eq!(r.unwrap_err(), RoomError::RoomFull);
    assert_eq!(store.pool[0].room.players.len(), 8);
}

#[test]
fn colors_and_teams_stay_distinct_as_players_join() {
    let mut store = RoomPoolStore::default();
    store.create_room("abcd".to_string()).unwrap();
    for n in 0..8 {
        join(
            &mut store,
            &format!("s{n}"),
            "abcd",
            &format!("p{n}"),
            &format!("u{n}"),
        );
    }
    let players = &store.pool[0].room.players;
    let mut hosts = 0;
    for a in 0..players.len() {
        if players[a].is_room_host {
            hosts += 1;
        }
        for b in (a + 1)..players.len() {
            assert_ne!(players[a].color, players[b].color);
            assert_ne!(players[a].team, players[b].team);
        }
    }
    assert_eq!(hosts, 1);
}

#[test]
fn change_team_rejects_values_beyond_spectator() {
    let mut store = RoomPoolStore::default();
    store.create_room("abcd".to_string()).unwrap();
    join(&mut store, "s1", "abcd", "p1", "alice");
    let r = store.change_player_team("s1".to_string(), "abcd".to_string(), 14);
    assert_eq!(r.unwrap_err(), RoomError::InvalidTeam);
    assert_eq!(store.pool[0].room.players[0].team, 1);
}

#[test]
fn change_team_moves_player() {
    let mut store = RoomPoolStore::default();
    store.create_room("abcd".to_string()).unwrap();
    join(&mut store, "s1", "abcd", "p1", "alice");
    let mp = store
        .change_player_team("s1".to_string(), "abcd".to_string(), 7)
        .unwrap();
    assert_eq!(mp.username, "alice");
    assert_eq!(mp.color, 1);
    assert_eq!(store.pool[0].room.players[0].team, 7);
}

#[test]
fn change_team_unknown_player_fails() {
    let mut store = RoomPoolStore::default();
    store.create_room("abcd".to_string()).unwrap();
    join(&mut store, "s1", "abcd", "p1", "alice");
    let r = store.change_player_team("zz".to_string(), "abcd".to_string(), 2);
    assert_eq!(r.unwrap_err(), RoomError::PlayerNotFound);
}

#[test]
fn spectating_withdraws_force_start_vote() {
    let mut store = RoomPoolStore::default();
    store.create_room("abcd".to_string()).unwrap();
    join(&mut store, "s1", "abcd", "p1", "alice");
    store.pool[0].room.players[0].force_start = true;
    store.pool[0].room.force_start_num = 1;
    store
        .change_player_team("s1".to_string(), "abcd".to_string(), 13)
        .unwrap();
    let room = &store.pool[0].room;
    assert!(!room.players[0].force_start);
    assert_eq!(room.force_start_num, 0);
    assert_eq!(room.players[0].team, 13);
}

#[test]
fn spectating_twice_decrements_only_once() {
    let mut store = RoomPoolStore::default();
    store.create_room("abcd".to_string()).unwrap();
    join(&mut store, "s1", "abcd", "p1", "alice");
    store.pool[0].room.players[0].force_start = true;
    store.pool[0].room.force_start_num = 1;
    store
        .change_player_team("s1".to_string(), "abcd".to_string(), 13)
        .unwrap();
    store
        .change_player_team("s1".to_string(), "abcd".to_string(), 13)
        .unwrap();
    assert_eq!(store.pool[0].room.force_start_num, 0);
}

#[test]
fn host_transfer_moves_the_flag() {
    let mut store = RoomPoolStore::default();
    store.create_room("abcd".to_string()).unwrap();
    join(&mut store, "s1", "abcd", "p1", "alice");
    join(&mut store, "s2", "abcd", "p2", "bob");
    let (from, to) = store
        .change_player_host("s1".to_string(), "abcd".to_string(), "p2".to_string())
        .unwrap();
    assert_eq!(from.username, "alice");
    assert_eq!(to.username, "bob");
    let players = &store.pool[0].room.players;
    assert!(!players[0].is_room_host);
    assert!(players[1].is_room_host);
}

#[test]
fn host_transfer_needs_host_caller() {
    let mut store = RoomPoolStore::default();
    store.create_room("abcd".to_string()).unwrap();
    join(&mut store, "s1", "abcd", "p1", "alice");
    join(&mut store, "s2", "abcd", "p2", "bob");
    let r = store.change_player_host("s2".to_string(), "abcd".to_string(), "p1".to_string());
    assert_eq!(r.unwrap_err(), RoomError::PermissionDenied);
    assert!(store.pool[0].room.players[0].is_room_host);
}

#[test]
fn host_transfer_to_current_host_is_refused() {
    let mut store = RoomPoolStore::default();
    store.create_room("abcd".to_string()).unwrap();
    join(&mut store, "s1", "abcd", "p1", "alice");
    join(&mut store, "s2", "abcd", "p2", "bob");
    let r = store.change_player_host("s1".to_string(), "abcd".to_string(), "p1".to_string());
    assert_eq!(r.unwrap_err(), RoomError::AlreadyHost);
    assert!(store.pool[0].room.players[0].is_room_host);
    assert!(!store.pool[0].room.players[1].is_room_host);
}

#[test]
fn host_transfer_to_unknown_id_promotes_first_player() {
    let mut store = RoomPoolStore::default();
    store.create_room("abcd".to_string()).unwrap();
    join(&mut store, "s1", "abcd", "p1", "alice");
    join(&mut store, "s2", "abcd", "p2", "bob");
    // make the second player host so that the fallback actually moves the flag
    store.pool[0].room.players[0].is_room_host = false;
    store.pool[0].room.players[1].is_room_host = true;
    let (from, to) = store
        .change_player_host("s2".to_string(), "abcd".to_string(), "ghost".to_string())
        .unwrap();
    assert_eq!(from.username, "bob");
    assert_eq!(to.username, "alice");
    let players = &store.pool[0].room.players;
    assert!(players[0].is_room_host);
    assert!(!players[1].is_room_host);
}

#[test]
fn exactly_one_host_after_every_operation() {
    let mut store = RoomPoolStore::default();
    store.create_room("abcd".to_string()).unwrap();
    join(&mut store, "s1", "abcd", "p1", "alice");
    join(&mut store, "s2", "abcd", "p2", "bob");
    join(&mut store, "s3", "abcd", "p3", "carol");
    let host_count = |store: &RoomPoolStore| {
        store.pool[0]
            .room
            .players
            .iter()
            .filter(|p| p.is_room_host)
            .count()
    };
    assert_eq!(host_count(&store), 1);
    store
        .change_player_host("s1".to_string(), "abcd".to_string(), "p3".to_string())
        .unwrap();
    assert_eq!(host_count(&store), 1);
    store
        .change_player_host("s3".to_string(), "abcd".to_string(), "missing".to_string())
        .unwrap();
    assert_eq!(host_count(&store), 1);
    store
        .change_player_team("s2".to_string(), "abcd".to_string(), 13)
        .unwrap();
    assert_eq!(host_count(&store), 1);
}

#[test]
fn change_team_may_join_an_occupied_team() {
    // players may team up: uniqueness of teams is only guaranteed for the
    // assignments made at join time, not against an explicit team choice
    let mut store = RoomPoolStore::default();
    store.create_room("abcd".to_string()).unwrap();
    join(&mut store, "s1", "abcd", "p1", "alice");
    join(&mut store, "s2", "abcd", "p2", "bob");
    store
        .change_player_team("s2".to_string(), "abcd".to_string(), 1)
        .unwrap();
    assert_eq!(store.pool[0].room.players[0].team, 1);
    assert_eq!(store.pool[0].room.players[1].team, 1);
}

#[test]
fn joiner_becomes_spectator_when_every_team_is_taken() {
    let mut store = RoomPoolStore::default();
    store.create_room("abcd".to_string()).unwrap();
    join(&mut store, "s0", "abcd", "p0", "u0");
    store
        .modify_game_options(
            "s0".to_string(),
            "abcd".to_string(),
            "max_players".to_string(),
            gennia_server::options::OptionValue::Number {
                milli: 20000,
                integral: true,
            },
        )
        .unwrap();
    for n in 1..12 {
        join(
            &mut store,
            &format!("s{n}"),
            "abcd",
            &format!("p{n}"),
            &format!("u{n}"),
        );
    }
    let p = store
        .add_player(
            "s12".to_string(),
            "abcd".to_string(),
            "p12".to_string(),
            "u12".to_string(),
        )
        .unwrap();
    assert_eq!(p.team, 13);
    assert_eq!(p.color, 13);
}

#[test]
fn snapshot_copies_the_pool() {
    let mut store = RoomPoolStore::default();
    store.create_room("abcd".to_string()).unwrap();
    join(&mut store, "s1", "abcd", "p1", "alice");
    let copy = store.get();
    assert_eq!(copy.len(), 1);
    assert_eq!(copy[0].id, "abcd");
    assert_eq!(copy[0].room.players.len(), 1);
    assert_eq!(copy[0].room.players[0].username, "alice");
}

#[test]
fn serialize_reports_lobby_fields() {
    let mut store = RoomPoolStore::default();
    store.create_room("abcd".to_string()).unwrap();
    join(&mut store, "s1", "abcd", "p1", "alice");
    let listed = store.serialize();
    assert_eq!(listed.len(), 1);
    assert_eq!(listed[0].id, "abcd");
    assert_eq!(listed[0].room_name, "Untitled");
    assert!(!listed[0].game_started);
    assert_eq!(listed[0].game_speed, 1000);
    assert_eq!(listed[0].player_count, 1);
    assert_eq!(listed[0].max_players, 8);
}

#[test]
fn invalid_value_error_names_the_key() {
    let mut store = RoomPoolStore::default();
    store.create_room("abcd".to_string()).unwrap();
    join(&mut store, "s1", "abcd", "p1", "alice");
    let r = store.modify_game_options(
        "s1".to_string(),
        "abcd".to_string(),
        "game_speed".to_string(),
        gennia_server::options::OptionValue::Flag(true),
    );
    assert_eq!(r.unwrap_err(), RoomError::InvalidValue(OptionKey::GameSpeed));
}
