use gennia_server::errors::{OptionKey, RoomError};
use gennia_server::options::OptionValue;
use gennia_server::pool::{ModifyOutcome, RoomPoolStore};

fn hosted_store() -> RoomPoolStore {
    let mut store = RoomPoolStore::default();
    store.create_room("abcd".to_string()).unwrap();
    store
        .add_player(
            "s1".to_string(),
            "abcd".to_string(),
            "p1".to_string(),
            "alice".to_string(),
        )
        .unwrap();
    store
        .add_player(
            "s2".to_string(),
            "abcd".to_string(),
            "p2".to_string(),
            "bob".to_string(),
        )
        .unwrap();
    store
}

fn modify(store: &mut RoomPoolStore, sock: &str, prop: &str, val: OptionValue) -> Result<ModifyOutcome, RoomError> {
    store.modify_game_options(
        sock.to_string(),
        "abcd".to_string(),
        prop.to_string(),
        val,
    )
}

fn number(milli: i64) -> OptionValue {
    OptionValue::Number {
        milli,
        integral: milli >= 0 && milli % 1000 == 0,
    }
}

#[test]
fn only_the_host_may_modify_options() {
    let mut store = hosted_store();
    let r = modify(&mut store, "s2", "room_name", OptionValue::Text("x".to_string()));
    assert_eq!(r.unwrap_err(), RoomError::PermissionDenied);
}

#[test]
fn modify_unknown_room_fails() {
    let mut store = hosted_store();
    let r = store.modify_game_options(
        "s1".to_string(),
        "none".to_string(),
        "room_name".to_string(),
        OptionValue::Text("x".to_string()),
    );
    assert_eq!(r.unwrap_err(), RoomError::RoomNotFound);
}

#[test]
fn unknown_key_is_rejected() {
    let mut store = hosted_store();
    let r = modify(&mut store, "s1", "no_such_option", OptionValue::Flag(true));
    assert_eq!(r.unwrap_err(), RoomError::InvalidKey);
}

#[test]
fn room_name_takes_a_string() {
    let mut store = hosted_store();
    let out = modify(
        &mut store,
        "s1",
        "room_name",
        OptionValue::Text("Skirmish".to_string()),
    )
    .unwrap();
    match out {
        ModifyOutcome::Applied(mp) => assert_eq!(mp.username, "alice"),
        ModifyOutcome::MapLookupNeeded(_) => panic!("no lookup expected"),
    }
    assert_eq!(store.pool[0].room.game_options.room_name, "Skirmish");
}

#[test]
fn room_name_rejects_a_number() {
    let mut store = hosted_store();
    let r = modify(&mut store, "s1", "room_name", number(1000));
    assert_eq!(r.unwrap_err(), RoomError::InvalidValue(OptionKey::RoomName));
    assert_eq!(store.pool[0].room.game_options.room_name, "Untitled");
}

#[test]
fn max_players_takes_a_whole_number() {
    let mut store = hosted_store();
    modify(&mut store, "s1", "max_players", number(12000)).unwrap();
    assert_eq!(store.pool[0].room.game_options.max_players, 12);
}

#[test]
fn max_players_rejects_zero_and_fractions() {
    let mut store = hosted_store();
    let r = modify(&mut store, "s1", "max_players", number(0));
    assert_eq!(r.unwrap_err(), RoomError::InvalidValue(OptionKey::MaxPlayers));
    let r = modify(
        &mut store,
        "s1",
        "max_players",
        OptionValue::Number {
            milli: 2500,
            integral: false,
        },
    );
    assert_eq!(r.unwrap_err(), RoomError::InvalidValue(OptionKey::MaxPlayers));
    assert_eq!(store.pool[0].room.game_options.max_players, 8);
}

#[test]
fn game_speed_takes_only_the_fixed_set() {
    let mut store = hosted_store();
    for milli in [500, 1000, 2000, 3000, 4000] {
        modify(
            &mut store,
            "s1",
            "game_speed",
            OptionValue::Number {
                milli,
                integral: false,
            },
        )
        .unwrap();
        assert_eq!(store.pool[0].room.game_options.game_speed, milli as u32);
    }
    let r = modify(
        &mut store,
        "s1",
        "game_speed",
        OptionValue::Number {
            milli: 1500,
            integral: false,
        },
    );
    assert_eq!(r.unwrap_err(), RoomError::InvalidValue(OptionKey::GameSpeed));
    assert_eq!(store.pool[0].room.game_options.game_speed, 4000);
}

#[test]
fn densities_take_values_within_unit_range() {
    let mut store = hosted_store();
    let fields: [(&str, fn(&RoomPoolStore) -> u32); 5] = [
        ("map_width", |s| s.pool[0].room.game_options.map_width),
        ("map_height", |s| s.pool[0].room.game_options.map_height),
        ("mountain", |s| s.pool[0].room.game_options.mountain),
        ("city", |s| s.pool[0].room.game_options.city),
        ("swamp", |s| s.pool[0].room.game_options.swamp),
    ];
    for (prop, read) in fields {
        modify(
            &mut store,
            "s1",
            prop,
            OptionValue::Number {
                milli: 250,
                integral: false,
            },
        )
        .unwrap();
        assert_eq!(read(&store), 250);
    }
}

#[test]
fn density_outside_unit_range_leaves_value_unchanged() {
    let mut store = hosted_store();
    for milli in [-1, 1001, 5000] {
        let r = modify(
            &mut store,
            "s1",
            "mountain",
            OptionValue::Number {
                milli,
                integral: false,
            },
        );
        assert_eq!(r.unwrap_err(), RoomError::InvalidValue(OptionKey::Mountain));
        assert_eq!(store.pool[0].room.game_options.mountain, 500);
    }
}

#[test]
fn toggles_take_booleans() {
    let mut store = hosted_store();
    modify(&mut store, "s1", "fog_of_war", OptionValue::Flag(false)).unwrap();
    modify(&mut store, "s1", "death_spectating", OptionValue::Flag(false)).unwrap();
    modify(&mut store, "s1", "reveal_king", OptionValue::Flag(true)).unwrap();
    modify(&mut store, "s1", "warring_state", OptionValue::Flag(true)).unwrap();
    let o = &store.pool[0].room.game_options;
    assert!(!o.fog_of_war);
    assert!(!o.death_spectating);
    assert!(o.reveal_king);
    assert!(o.warring_state);
}

#[test]
fn toggle_rejects_a_string() {
    let mut store = hosted_store();
    let r = modify(
        &mut store,
        "s1",
        "fog_of_war",
        OptionValue::Text("yes".to_string()),
    );
    assert_eq!(r.unwrap_err(), RoomError::InvalidValue(OptionKey::FogOfWar));
    assert!(store.pool[0].room.game_options.fog_of_war);
}

#[test]
fn map_id_asks_for_a_lookup_and_applies_on_resolution() {
    let mut store = hosted_store();
    let out = modify(
        &mut store,
        "s1",
        "map_id",
        OptionValue::Text("m-42".to_string()),
    )
    .unwrap();
    let id = match out {
        ModifyOutcome::MapLookupNeeded(id) => id,
        ModifyOutcome::Applied(_) => panic!("a lookup was expected"),
    };
    assert_eq!(id, "m-42");
    assert_eq!(store.pool[0].room.game_options.map_id, "");
    let mp = store
        .apply_map_selection(
            "s1".to_string(),
            "abcd".to_string(),
            id,
            Some("Highlands".to_string()),
        )
        .unwrap();
    assert_eq!(mp.username, "alice");
    assert_eq!(store.pool[0].room.game_options.map_id, "m-42");
    assert_eq!(store.pool[0].room.game_options.map_name, "Highlands");
}

#[test]
fn unresolved_map_id_is_an_invalid_value() {
    let mut store = hosted_store();
    let r = store.apply_map_selection(
        "s1".to_string(),
        "abcd".to_string(),
        "m-0".to_string(),
        None,
    );
    assert_eq!(r.unwrap_err(), RoomError::InvalidValue(OptionKey::MapId));
    assert_eq!(store.pool[0].room.game_options.map_id, "");
}

#[test]
fn map_selection_revalidates_host_standing() {
    let mut store = hosted_store();
    // the host changes between the lookup and its completion
    store
        .change_player_host("s1".to_string(), "abcd".to_string(), "p2".to_string())
        .unwrap();
    let r = store.apply_map_selection(
        "s1".to_string(),
        "abcd".to_string(),
        "m-42".to_string(),
        Some("Highlands".to_string()),
    );
    assert_eq!(r.unwrap_err(), RoomError::PermissionDenied);
    assert_eq!(store.pool[0].room.game_options.map_id, "");
}
