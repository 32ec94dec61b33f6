use dark_binding::error::ClientError;
use dark_binding::socket::{
    is_champ_select_update, json_api_event, session_update_data, EventType, WampBody, WampMessage,
};
use dark_binding::structs::{
    replace_game_cfg, take_game_cfg, to_str, ChampionSelectTimerPhase, InnerSettingsFile, JsonScalar,
    PersistedSettings,
};
use serde_json::Value;

fn file(name: &str, tag: &str) -> InnerSettingsFile {
    InnerSettingsFile { name: name.to_string(), sections: Value::String(tag.to_string()) }
}

fn settings(description: &str, files: Vec<InnerSettingsFile>) -> PersistedSettings {
    PersistedSettings { description: description.to_string(), files }
}

fn carry_game_cfg(current: PersistedSettings, backup: PersistedSettings) -> Option<PersistedSettings> {
    take_game_cfg(current).map(|cfg| replace_game_cfg(backup, cfg))
}

#[test]
fn carrying_moves_game_cfg_only() {
    let current = settings("current", vec![file("Input.ini", "champ keys"), file("Game.cfg", "new game")]);
    let backup = settings(
        "original",
        vec![file("Game.cfg", "old game"), file("Input.ini", "original keys"), file("Game.cfg", "second")],
    );
    let merged = carry_game_cfg(current, backup).unwrap();
    assert_eq!(
        merged,
        settings(
            "original",
            vec![file("Game.cfg", "new game"), file("Input.ini", "original keys"), file("Game.cfg", "second")]
        )
    );
}

#[test]
fn carrying_without_game_cfg_in_use() {
    let current = settings("current", vec![file("Input.ini", "keys")]);
    let backup = settings("original", vec![file("Game.cfg", "old")]);
    assert_eq!(carry_game_cfg(current, backup), None);
}

#[test]
fn carrying_into_backup_without_game_cfg() {
    let current = settings("current", vec![file("Game.cfg", "new")]);
    let backup = settings("original", vec![file("Input.ini", "keys")]);
    assert_eq!(
        carry_game_cfg(current, backup),
        Some(settings("original", vec![file("Input.ini", "keys")]))
    );
}

#[test]
fn carrying_twice_changes_nothing() {
    let make_current = || settings("c", vec![file("Game.cfg", "new")]);
    let backup = settings("o", vec![file("Input.ini", "k"), file("Game.cfg", "old")]);
    let once = carry_game_cfg(make_current(), backup).unwrap();
    let expected = settings("o", vec![file("Input.ini", "k"), file("Game.cfg", "new")]);
    assert_eq!(once, expected);
    let twice = carry_game_cfg(make_current(), once).unwrap();
    assert_eq!(twice, expected);
}

#[test]
fn identifiers_from_json() {
    assert_eq!(to_str(JsonScalar::Str("abc".to_string())), Ok("abc".to_string()));
    assert_eq!(to_str(JsonScalar::Number("12345".to_string())), Ok("12345".to_string()));
    assert_eq!(to_str(JsonScalar::Bool(true)), Ok("true".to_string()));
    assert_eq!(to_str(JsonScalar::Bool(false)), Ok("false".to_string()));
    assert_eq!(to_str(JsonScalar::Other), Err(ClientError::UnexpectedValue));
}

#[test]
fn timer_phases() {
    assert_eq!(ChampionSelectTimerPhase::from_name("BAN_PICK"), ChampionSelectTimerPhase::BanPick);
    assert_eq!(
        ChampionSelectTimerPhase::from_name("FINALIZATION"),
        ChampionSelectTimerPhase::Finalization
    );
    assert_eq!(ChampionSelectTimerPhase::from_name("PLANNING"), ChampionSelectTimerPhase::Other);
    assert_eq!(ChampionSelectTimerPhase::from_name(""), ChampionSelectTimerPhase::Other);
}

#[test]
fn event_types() {
    assert_eq!(EventType::from_name("Create"), Some(EventType::Create));
    assert_eq!(EventType::from_name("Update"), Some(EventType::Update));
    assert_eq!(EventType::from_name("Delete"), Some(EventType::Delete));
    assert_eq!(EventType::from_name("update"), None);
}

fn message(name: &str, event_type: EventType, uri: &str) -> WampMessage {
    WampMessage(
        8,
        name.to_string(),
        WampBody { event_type, uri: uri.to_string(), data: Value::Bool(true) },
    )
}

#[test]
fn routing_of_socket_events() {
    let session = "/lol-champ-select/v1/session";
    assert_eq!(
        session_update_data(message("OnJsonApiEvent", EventType::Update, session)),
        Some(Value::Bool(true))
    );
    assert_eq!(session_update_data(message("OnJsonApiEvent", EventType::Create, session)), None);
    assert_eq!(session_update_data(message("OnJsonApiEvent", EventType::Update, "/other")), None);
    assert_eq!(session_update_data(message("OnOtherEvent", EventType::Update, session)), None);
    assert!(json_api_event(message("OnOtherEvent", EventType::Update, session)).is_none());
    let body = json_api_event(message("OnJsonApiEvent", EventType::Update, session)).unwrap();
    assert!(is_champ_select_update(&body));
}

#[test]
fn take_and_replace_game_cfg() {
    let current = settings("c", vec![file("Input.ini", "k"), file("Game.cfg", "new"), file("Game.cfg", "x")]);
    let cfg = take_game_cfg(current).unwrap();
    assert_eq!(cfg, file("Game.cfg", "new"));
    assert_eq!(take_game_cfg(settings("c", vec![file("Input.ini", "k")])), None);
    let backup = settings("o", vec![file("Input.ini", "ok"), file("Game.cfg", "old")]);
    assert_eq!(
        replace_game_cfg(backup, cfg),
        settings("o", vec![file("Input.ini", "ok"), file("Game.cfg", "new")])
    );
    let plain = settings("o", vec![file("Input.ini", "ok")]);
    assert_eq!(
        replace_game_cfg(plain, file("Game.cfg", "new")),
        settings("o", vec![file("Input.ini", "ok")])
    );
}
