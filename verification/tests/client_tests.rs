use dark_binding::client::{ClientAction, LeagueClient, LeagueClientFn};
use std::path::PathBuf;
use dark_binding::credentials::Credentials;
use dark_binding::error::ClientError;
use dark_binding::files::{FileLook, FileStage, FsAction};
use dark_binding::socket::{EventType, WampBody, WampMessage};
use dark_binding::structs::{
    ChampionMinimal, ChampionSelectSessionUpdate, ChampionSelectTimer, ChampionSelectTimerPhase,
    LocalSummoner, TeamMember, RSO,
};

fn credentials() -> Credentials {
    Credentials { pid: 1, port: "55555".to_string(), token: "tok".to_string() }
}

fn summoner(id: &str) -> LocalSummoner {
    LocalSummoner {
        display_name: "Someone".to_string(),
        account_id: "77".to_string(),
        summoner_id: id.to_string(),
        summoner_level: 30,
        profile_icon_id: 4,
    }
}

fn champ(id: i32, alias: &str) -> ChampionMinimal {
    ChampionMinimal { id, alias: alias.to_string() }
}

fn group(name: &str, champions: &[&str]) -> (String, Vec<String>) {
    (name.to_string(), champions.iter().map(|c| c.to_string()).collect())
}

fn update(phase: ChampionSelectTimerPhase, team: &[(&str, u32)]) -> ChampionSelectSessionUpdate {
    ChampionSelectSessionUpdate {
        my_team: team
            .iter()
            .map(|(id, champion)| TeamMember { summoner_id: id.to_string(), champion_id: *champion })
            .collect(),
        timer: ChampionSelectTimer { phase },
    }
}

fn loaded_client() -> LeagueClient {
    let mut client = LeagueClient::new(credentials(), "/lol/Config".to_string());
    client.update_local_structs(
        summoner("42"),
        vec![champ(145, "Kaisa"), champ(36, "DrMundo"), champ(-1, "None"), champ(22, "Ashe")],
    );
    client.update_champion_groups(vec![
        group("Marksmen", &["Kai'Sa", "Ashe", "Unknown"]),
        group("Tanks", &["Dr. Mundo"]),
    ]);
    client
}

#[test]
fn groups_assign_known_champions() {
    let client = loaded_client();
    assert_eq!(client.champion_group(145), Some("Marksmen".to_string()));
    assert_eq!(client.champion_group(22), Some("Marksmen".to_string()));
    assert_eq!(client.champion_group(36), Some("Tanks".to_string()));
    assert_eq!(client.champion_group(1), None);
    assert_eq!(client.champion_group(4_000_000_000), None);
    assert_eq!(client.local_summoner(), Some(summoner("42")));
}

#[test]
fn last_group_listing_a_champion_wins() {
    let mut client = loaded_client();
    client.update_champion_groups(vec![
        group("First", &["ashe"]),
        group("Second", &["ASHE", "kaisa"]),
    ]);
    assert_eq!(client.champion_group(22), Some("Second".to_string()));
    assert_eq!(client.champion_group(145), Some("Second".to_string()));
    // Reloading drops the assignments of the previous groups.
    assert_eq!(client.champion_group(36), None);
}

#[test]
fn champion_loaded_only_when_finalized() {
    let client = loaded_client();
    let team = [("7", 1), ("42", 145), ("42", 22)];
    assert_eq!(
        client.champion_to_load(&update(ChampionSelectTimerPhase::Finalization, &team)),
        Some(145)
    );
    assert_eq!(client.champion_to_load(&update(ChampionSelectTimerPhase::BanPick, &team)), None);
    assert_eq!(client.champion_to_load(&update(ChampionSelectTimerPhase::Other, &team)), None);
    assert_eq!(
        client.champion_to_load(&update(ChampionSelectTimerPhase::Finalization, &[("7", 1)])),
        None
    );
}

#[test]
fn champion_not_loaded_without_summoner() {
    let client = LeagueClient::new(credentials(), "/lol/Config".to_string());
    let team = [("42", 145)];
    assert_eq!(
        client.champion_to_load(&update(ChampionSelectTimerPhase::Finalization, &team)),
        None
    );
}

#[test]
fn only_shutdown_ends_session() {
    assert!(LeagueClientFn::Shutdown.ends_session());
    assert!(!LeagueClientFn::BackupConfig.ends_session());
    assert!(!LeagueClientFn::RestoreConfig.ends_session());
    assert!(!LeagueClientFn::ReloadGroups.ends_session());
    let msg = WampMessage(
        8,
        "OnJsonApiEvent".to_string(),
        WampBody {
            event_type: EventType::Update,
            uri: "/x".to_string(),
            data: serde_json::Value::Null,
        },
    );
    assert!(!LeagueClientFn::Message(msg).ends_session());
}



fn s(x: &str) -> String {
    x.to_string()
}

/// The location the platform forms from `parts`, pushed in order.
fn loc(parts: &[&str]) -> String {
    let mut p = PathBuf::new();
    for part in parts {
        p.push(part);
    }
    p.to_string_lossy().into_owned()
}

fn with_extension(path: &str, ext: &str) -> String {
    let mut p = PathBuf::from(path);
    p.set_extension(ext);
    p.to_string_lossy().into_owned()
}

#[test]
fn new_client_knows_nothing_yet() {
    let client = LeagueClient::new(credentials(), s("/lol/Config"));
    assert_eq!(client.local_summoner(), None);
    assert_eq!(client.region(), None);
    assert_eq!(client.champion_group(145), None);
    assert_eq!(client.champion_config(145), None);
    assert_eq!(client.credentials(), &credentials());
    assert_eq!(client.config_folder(), "/lol/Config");
}

#[test]
fn init_records_region() {
    let mut client = LeagueClient::new(credentials(), s("/lol/Config"));
    client.init(RSO { current_platform_id: s("EUW1") });
    assert_eq!(client.region(), Some(&s("EUW1")));
}

#[test]
fn shutdown_succeeds() {
    let client = LeagueClient::new(credentials(), s("/lol/Config"));
    assert_eq!(client.shutdown(), Ok::<(), ClientError>(()));
}

#[test]
fn champions_without_positive_id_are_ignored() {
    let mut client = LeagueClient::new(credentials(), s("/lol/Config"));
    client.update_local_structs(summoner("1"), vec![champ(0, "Zero"), champ(-1, "Minus")]);
    client.update_champion_groups(vec![group("G", &["Zero", "Minus"])]);
    assert_eq!(client.champion_group(0), None);
}

#[test]
fn locations_of_settings_files() {
    let client = LeagueClient::new(credentials(), s("/lol/Config"));
    let settings = loc(&["/lol/Config", "PersistedSettings.json"]);
    assert_eq!(client.persisted_settings(), settings);
    assert_eq!(client.persisted_settings_backup(), with_extension(&settings, "bak"));
    assert_eq!(client.groups_toml(), loc(&["/lol/Config", ".dark-binding", "groups.toml"]));
    assert_ne!(client.persisted_settings(), client.persisted_settings_backup());
}

#[test]
fn champion_config_location() {
    let client = loaded_client();
    assert_eq!(
        client.champion_config(145),
        Some(with_extension(&loc(&["/lol/Config", ".dark-binding", "Marksmen"]), "json"))
    );
    assert_eq!(client.champion_config(7), None);
}

#[test]
fn every_group_name_gets_a_file() {
    let mut client = loaded_client();
    client.update_champion_groups(vec![
        group("a/b", &["Ashe"]),
        group("", &["Kaisa"]),
        group("my.group", &["DrMundo"]),
    ]);
    let dark = loc(&["/lol/Config", ".dark-binding"]);
    assert_eq!(client.champion_config(22), Some(with_extension(&loc(&[&dark, "a/b"]), "json")));
    assert_eq!(client.champion_config(145), Some(with_extension(&loc(&[&dark, ""]), "json")));
    assert_eq!(client.champion_config(36), Some(with_extension(&loc(&[&dark, "my.group"]), "json")));
    assert!(client.champion_config(22).unwrap().ends_with("b.json"));
    assert!(client.champion_config(36).unwrap().ends_with("my.json"));
}

#[test]
fn restore_steps() {
    let client = LeagueClient::new(credentials(), s("/lol/Config"));
    let p = client.persisted_settings();
    let b = client.persisted_settings_backup();
    assert_eq!(
        client.restore_first_actions(true, false),
        vec![
            FsAction::Copy { from: b.clone(), to: p.clone() },
            FsAction::Remove { path: b.clone(), required: false },
        ]
    );
    assert_eq!(client.restore_first_actions(true, true), vec![]);
    assert_eq!(client.restore_first_actions(false, false), vec![]);
    assert_eq!(client.restore_second_actions(None, true), vec![]);
    assert_eq!(
        client.restore_second_actions(Some(s("G")), false),
        vec![
            FsAction::Remove { path: p.clone(), required: true },
            FsAction::Copy { from: s("G"), to: p.clone() },
        ]
    );
    assert_eq!(
        client.restore_second_actions(Some(s("G")), true),
        vec![
            FsAction::MergeGameCfg { from: s("G"), into: b.clone() },
            FsAction::Remove { path: p.clone(), required: false },
            FsAction::Rename { from: b.clone(), to: p.clone() },
        ]
    );
}

#[test]
fn backup_steps() {
    let client = LeagueClient::new(credentials(), s("/lol/Config"));
    assert_eq!(
        client.backup_actions(true, false),
        vec![FsAction::Copy {
            from: client.persisted_settings(),
            to: client.persisted_settings_backup(),
        }]
    );
    assert_eq!(client.backup_actions(true, true), vec![]);
    assert_eq!(client.backup_actions(false, false), vec![]);
}

#[test]
fn load_steps() {
    let client = loaded_client();
    let p = client.persisted_settings();
    let g = client.champion_config(145).unwrap();
    assert_eq!(client.load_prepare_actions(&g, true), vec![]);
    assert_eq!(
        client.load_prepare_actions(&g, false),
        vec![
            FsAction::EnsureDir { path: loc(&["/lol/Config", ".dark-binding"]) },
            FsAction::Copy { from: p.clone(), to: g.clone() },
        ]
    );
    let nested = with_extension(&loc(&["/lol/Config", ".dark-binding", "a/b"]), "json");
    assert_eq!(
        client.load_prepare_actions(&nested, false),
        vec![
            FsAction::EnsureDir { path: loc(&["/lol/Config", ".dark-binding", "a"]) },
            FsAction::Copy { from: p.clone(), to: nested.clone() },
        ]
    );
    assert_eq!(
        client.link_actions(&g, true),
        vec![
            FsAction::Remove { path: p.clone(), required: false },
            FsAction::Link { target: g.clone(), link: p.clone() },
        ]
    );
    assert_eq!(client.link_actions(&g, false), vec![FsAction::Link { target: g.clone(), link: p.clone() }]);
}

#[test]
fn dispatch_of_requests() {
    assert!(matches!(LeagueClientFn::BackupConfig.dispatch(), (ClientAction::BackupConfig, false)));
    assert!(matches!(LeagueClientFn::RestoreConfig.dispatch(), (ClientAction::RestoreConfig, false)));
    assert!(matches!(LeagueClientFn::ReloadGroups.dispatch(), (ClientAction::ReloadGroups, false)));
    assert!(matches!(LeagueClientFn::Shutdown.dispatch(), (ClientAction::Shutdown, true)));
    let session = |event_type, uri: &str| {
        LeagueClientFn::Message(WampMessage(
            8,
            s("OnJsonApiEvent"),
            WampBody { event_type, uri: s(uri), data: serde_json::Value::Bool(true) },
        ))
    };
    match session(EventType::Update, "/lol-champ-select/v1/session").dispatch() {
        (ClientAction::SessionUpdate(data), false) => assert_eq!(data, serde_json::Value::Bool(true)),
        other => panic!("unexpected {:?}", other),
    }
    assert!(matches!(
        session(EventType::Delete, "/lol-champ-select/v1/session").dispatch(),
        (ClientAction::Ignore, false)
    ));
    assert!(matches!(session(EventType::Update, "/other").dispatch(), (ClientAction::Ignore, false)));
}

#[test]
fn locations_inside_the_settings_folder() {
    let client = loaded_client();
    assert_eq!(client.persisted_settings(), "/lol/Config/PersistedSettings.json");
    assert_eq!(client.persisted_settings_backup(), "/lol/Config/PersistedSettings.bak");
    assert_eq!(client.groups_toml(), "/lol/Config/.dark-binding/groups.toml");
    assert_eq!(client.champion_config(145), Some(s("/lol/Config/.dark-binding/Marksmen.json")));
    let slashed = LeagueClient::new(credentials(), s("/lol/Config/"));
    assert_eq!(slashed.persisted_settings(), "/lol/Config/PersistedSettings.json");
    assert_eq!(slashed.persisted_settings_backup(), "/lol/Config/PersistedSettings.bak");
    let relative = LeagueClient::new(credentials(), s(""));
    assert_eq!(relative.persisted_settings(), "PersistedSettings.json");
    assert_eq!(relative.groups_toml(), ".dark-binding/groups.toml");
}

fn look(settings_present: bool, settings_link: Option<&str>, backup_present: bool, group_file_present: bool) -> FileLook {
    FileLook {
        settings_present,
        settings_link: settings_link.map(|t| t.to_string()),
        backup_present,
        group_file_present,
    }
}

#[test]
fn file_stages_of_loading() {
    let client = loaded_client();
    let p = client.persisted_settings();
    let b = client.persisted_settings_backup();
    let g = client.champion_config(145).unwrap();
    let gf = Some(g.as_str());
    let plain = look(true, None, false, false);
    assert_eq!(client.file_step(gf, FileStage::RestoreFirst, &plain), (vec![], FileStage::RestoreSecond));
    assert_eq!(client.file_step(gf, FileStage::RestoreSecond, &plain), (vec![], FileStage::Prepare));
    assert_eq!(
        client.file_step(gf, FileStage::Prepare, &plain),
        (
            vec![
                FsAction::EnsureDir { path: s("/lol/Config/.dark-binding") },
                FsAction::Copy { from: p.clone(), to: g.clone() },
            ],
            FileStage::Backup
        )
    );
    assert_eq!(
        client.file_step(gf, FileStage::Backup, &look(true, None, false, true)),
        (vec![FsAction::Copy { from: p.clone(), to: b.clone() }], FileStage::Link)
    );
    assert_eq!(
        client.file_step(gf, FileStage::Link, &look(true, None, true, true)),
        (
            vec![
                FsAction::Remove { path: p.clone(), required: false },
                FsAction::Link { target: g.clone(), link: p.clone() },
            ],
            FileStage::Done
        )
    );
    assert_eq!(client.file_step(gf, FileStage::Done, &plain), (vec![], FileStage::Done));
}

#[test]
fn file_stages_of_restoring() {
    let client = loaded_client();
    let p = client.persisted_settings();
    let b = client.persisted_settings_backup();
    let linked = look(true, Some("G"), true, false);
    assert_eq!(client.file_step(None, FileStage::RestoreFirst, &linked), (vec![], FileStage::RestoreSecond));
    assert_eq!(
        client.file_step(None, FileStage::RestoreSecond, &linked),
        (
            vec![
                FsAction::MergeGameCfg { from: s("G"), into: b.clone() },
                FsAction::Remove { path: p.clone(), required: false },
                FsAction::Rename { from: b.clone(), to: p.clone() },
            ],
            FileStage::Done
        )
    );
    assert_eq!(
        client.file_step(None, FileStage::RestoreFirst, &look(false, None, true, false)),
        (
            vec![
                FsAction::Copy { from: b.clone(), to: p.clone() },
                FsAction::Remove { path: b.clone(), required: false },
            ],
            FileStage::RestoreSecond
        )
    );
    assert_eq!(client.file_step(None, FileStage::Prepare, &linked), (vec![], FileStage::Done));
}
