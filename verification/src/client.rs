use std::collections::HashMap;
use vstd::prelude::*;
use vstd::hash_map::StringHashMap;
use crate::credentials::{Credentials, CredentialsView};
use crate::error::ClientError;
use crate::files::{
    actions_view,
    backup_plan,
    lemma_load_then_restore,
    round_trip,
    stage_plan,
    FileLook,
    FileStage,
    Entry,
    Files,
    SettingsContent,
    link_plan,
    prepare_plan,
    restore_first_plan,
    restore_second_plan,
    FsAction,
};
use crate::paths::{
    ends_with,
    is_separator,
    joined,
    opt_text,
    parent_at,
    path_join,
    path_parent,
    path_with_extension,
    plain_name,
    relative_name,
    two_separators_first,
    with_extension,
    extension_at,
    file_name_at,
    lemma_with_extension_plain,
};
use crate::settings::{needs_backup, restore_moves_backup, restore_outcome, RestoreOutcome};
use crate::socket::{
    json_api_event_name,
    session_update_data,
    spec_is_champ_select_update,
    WampMessage,
};
use crate::structs::{
    ChampionMinimal,
    ChampionSelectSessionUpdate,
    ChampionSelectTimerPhase,
    LocalSummoner,
    RSO,
    TeamMember,
};
use crate::text::{lemma_normalize_idempotent, normalize, normalize_champion_name};

verus! {

broadcast use vstd::std_specs::hash::group_hash_axioms;

/// A request handed to the client's event loop, from the tray menu or from
/// the client's WebSocket.
#[derive(Debug)]
pub enum LeagueClientFn {
    BackupConfig,
    RestoreConfig,
    ReloadGroups,
    Shutdown,
    Message(WampMessage),
}

impl LeagueClientFn {
    /// Whether the event loop stops after this request: only a shutdown
    /// ends it.
    pub fn ends_session(&self) -> (r: bool)
        ensures
            r <==> *self is Shutdown,
    {
        match self {
            LeagueClientFn::Shutdown => true,
            _ => false,
        }
    }
}

/// What the event loop does for a request.
#[derive(Debug)]
pub enum ClientAction {
    BackupConfig,
    RestoreConfig,
    ReloadGroups,
    /// Shut the client down; the loop then stops.
    Shutdown,
    /// Load the settings for the champion-select session update `data`.
    SessionUpdate(serde_json::Value),
    /// Nothing: the WebSocket event is not one the application acts on.
    Ignore,
}

impl LeagueClientFn {
    /// The event loop's step for a request: the action to take, and whether
    /// the loop stops afterwards (only after a shutdown). Of the WebSocket's
    /// events only an `OnJsonApiEvent` that updates the champion-select
    /// session is acted on.
    pub fn dispatch(self) -> (r: (ClientAction, bool))
        ensures
            r.1 <==> self is Shutdown,
            match self {
                LeagueClientFn::BackupConfig => r.0 is BackupConfig,
                LeagueClientFn::RestoreConfig => r.0 is RestoreConfig,
                LeagueClientFn::ReloadGroups => r.0 is ReloadGroups,
                LeagueClientFn::Shutdown => r.0 is Shutdown,
                LeagueClientFn::Message(m) => if m.1@ == json_api_event_name()
                    && spec_is_champ_select_update(m.2) {
                    r.0 == ClientAction::SessionUpdate(m.2.data)
                } else {
                    r.0 is Ignore
                },
            },
    {
        match self {
            LeagueClientFn::BackupConfig => (ClientAction::BackupConfig, false),
            LeagueClientFn::RestoreConfig => (ClientAction::RestoreConfig, false),
            LeagueClientFn::ReloadGroups => (ClientAction::ReloadGroups, false),
            LeagueClientFn::Shutdown => (ClientAction::Shutdown, true),
            LeagueClientFn::Message(m) => match session_update_data(m) {
                Some(data) => (ClientAction::SessionUpdate(data), false),
                None => (ClientAction::Ignore, false),
            },
        }
    }
}

/// The state of a connection to a running client.
pub struct LeagueClient {
    credentials: Credentials,
    config_folder: String,
    settings_path: String,
    backup_path: String,
    dark_binding_dir: String,
    groups_toml_path: String,
    region: Option<String>,
    local_summoner: Option<LocalSummoner>,
    champion_names: StringHashMap<i32>,
    champion_groups: HashMap<i32, String>,
}

/// A client's state as plain values.
pub struct LeagueClientView {
    pub credentials: CredentialsView,
    pub config_folder: Seq<char>,
    /// Where the game reads its settings (`PersistedSettings.json` in the
    /// settings folder).
    pub settings_path: Seq<char>,
    /// Where the original settings are backed up (`PersistedSettings.bak`).
    pub backup_path: Seq<char>,
    /// The directory of the application's own files (`.dark-binding/`).
    pub dark_binding_dir: Seq<char>,
    /// The file that lists the champion groups (`groups.toml` in it).
    pub groups_toml_path: Seq<char>,
    pub region: Option<Seq<char>>,
    pub local_summoner: Option<LocalSummoner>,
    /// Normalised champion name to champion id.
    pub champion_names: Map<Seq<char>, i32>,
    /// Champion id to the name of the group the champion belongs to.
    pub champion_groups: Map<i32, String>,
}

impl View for LeagueClient {
    type V = LeagueClientView;

    closed spec fn view(&self) -> LeagueClientView {
        LeagueClientView {
            credentials: self.credentials@,
            config_folder: self.config_folder@,
            settings_path: self.settings_path@,
            backup_path: self.backup_path@,
            dark_binding_dir: self.dark_binding_dir@,
            groups_toml_path: self.groups_toml_path@,
            region: match self.region {
                None => None,
                Some(r) => Some(r@),
            },
            local_summoner: self.local_summoner,
            champion_names: self.champion_names@,
            champion_groups: self.champion_groups@,
        }
    }
}

/// A settings folder whose locations every platform forms alike: it does
/// not begin with two separators (a Windows network, device or verbatim
/// prefix) and is not a lone separator.
pub open spec fn ordinary_dir(dir: Seq<char>) -> bool {
    &&& !two_separators_first(dir)
    &&& dir.len() == 1 ==> !is_separator(dir[0])
}

/// `PersistedSettings.json`, the settings file the game reads.
pub open spec fn settings_file_name() -> Seq<char> {
    seq!['P', 'e', 'r', 's', 'i', 's', 't', 'e', 'd', 'S', 'e', 't', 't', 'i', 'n', 'g', 's', '.', 'j', 's', 'o', 'n']
}

/// `.dark-binding/`, the application's folder inside the settings folder,
/// written with a `/`, which every platform reads as a separator.
pub open spec fn app_dir_name() -> Seq<char> {
    seq!['.', 'd', 'a', 'r', 'k', '-', 'b', 'i', 'n', 'd', 'i', 'n', 'g', '/']
}

/// `groups.toml`, the file that lists the champion groups.
pub open spec fn groups_file_name() -> Seq<char> {
    seq!['g', 'r', 'o', 'u', 'p', 's', '.', 't', 'o', 'm', 'l']
}

/// `json`, the extension of a group's settings file.
pub open spec fn group_extension() -> Seq<char> {
    seq!['j', 's', 'o', 'n']
}

/// The locations of a client as formed from its settings folder:
/// `PersistedSettings.json` in the folder, the backup beside it with the
/// extension `bak` in place of `json`, the application's folder
/// `.dark-binding/` in the settings folder, and `groups.toml` in that.
pub open spec fn locations_from_folder(c: LeagueClientView) -> bool {
    &&& joined(c.config_folder, settings_file_name(), c.settings_path)
    &&& c.backup_path == c.settings_path.take(c.settings_path.len() - 4) + seq!['b', 'a', 'k']
    &&& joined(c.config_folder, app_dir_name(), c.dark_binding_dir)
    &&& c.groups_toml_path == c.dark_binding_dir + groups_file_name()
}

/// The group name `group` is a relative path that ends, after its last
/// `/`, with the plain file name `name`; `folders` is what comes before it.
pub open spec fn group_path(group: Seq<char>, folders: Seq<char>, name: Seq<char>) -> bool {
    &&& group == folders + name
    &&& folders.len() == 0 || folders.last() == '/'
    &&& plain_name(name)
    &&& relative_name(group)
}

/// The settings file of the group `folders + name`: the group's name inside
/// the application's folder, with the extension `json`.
pub open spec fn group_file_location(c: LeagueClientView, folders: Seq<char>, name: Seq<char>) -> Seq<
    char,
> {
    c.dark_binding_dir + folders + with_extension(name, group_extension())
}

/// What a relative name joined to an ordinary folder gives: the folder's
/// text, at most one separator, and the name.
proof fn lemma_joined_ordinary(dir: Seq<char>, name: Seq<char>, r: Seq<char>)
    requires
        ordinary_dir(dir),
        relative_name(name),
        joined(dir, name, r),
    ensures
        !two_separators_first(r),
        r.len() >= dir.len() + name.len(),
        r.len() <= dir.len() + name.len() + 1,
        r.subrange(0, dir.len() as int) == dir,
        r.subrange(r.len() - name.len(), r.len() as int) == name,
        r.len() == dir.len() + name.len() + 1 ==> is_separator(r[dir.len() as int]),
        r.last() == name.last(),
{
    if r == dir + name {
        assert(r.subrange(0, dir.len() as int) =~= dir);
        assert(r.subrange(r.len() - name.len(), r.len() as int) =~= name);
        if dir.len() == 1 {
            assert(r[1] == name[0]);
        }
        if dir.len() == 0 {
            assert(r[0] == name[0]);
        }
    } else {
        assert(r.subrange(0, dir.len() as int) =~= dir);
        assert(r.subrange(r.len() - name.len(), r.len() as int) =~= name);
        if dir.len() == 1 {
            assert(r[0] == dir[0]);
        }
    }
}

/// The locations of a client made from an ordinary folder: the settings
/// file and its backup differ, and the settings file of a group is neither.
pub proof fn lemma_locations_distinct(c: LeagueClientView, folders: Seq<char>, name: Seq<char>)
    requires
        ordinary_dir(c.config_folder),
        locations_from_folder(c),
        folders.len() == 0 || folders.last() == '/',
        plain_name(name),
    ensures
        c.settings_path != c.backup_path,
        group_file_location(c, folders, name) != c.settings_path,
        group_file_location(c, folders, name) != c.backup_path,
{
    let d = c.config_folder;
    let n: int = d.len() as int;
    let p = c.settings_path;
    let b = c.backup_path;
    let a = c.dark_binding_dir;
    let sf = settings_file_name();
    let an = app_dir_name();
    assert(relative_name(sf));
    assert(relative_name(an));
    lemma_joined_ordinary(d, sf, p);
    lemma_joined_ordinary(d, an, a);
    lemma_with_extension_plain(name, group_extension());
    let g = group_file_location(c, folders, name);
    assert(p.len() >= n + 22);
    assert(b.len() == p.len() - 1);
    assert(p != b);
    assert(g.len() >= a.len());
    assert(forall|i: int| 0 <= i < a.len() ==> g[i] == a[i]);
    assert(forall|i: int| 0 <= i < p.len() - 4 ==> b[i] == p[i]);
    // Where the two locations leave the folder, the settings file goes on
    // with `P` and the application's folder with `.`, each after at most one
    // separator.
    let pa = p.subrange(p.len() - 22, p.len() as int);
    let aa = a.subrange(a.len() - 14, a.len() as int);
    if p.len() == n + 22 {
        assert(p[n] == pa[0]);
        if a.len() == n + 14 {
            assert(a[n] == aa[0]);
            assert(g[n] != p[n]);
            assert(g[n] != b[n]);
        } else {
            assert(g[n] != p[n]);
            assert(g[n] != b[n]);
        }
    } else {
        assert(p[n + 1] == pa[0]);
        if a.len() == n + 14 {
            assert(a[n] == aa[0]);
            assert(g[n] != p[n]);
            assert(g[n] != b[n]);
        } else {
            assert(a[n + 1] == aa[0]);
            assert(g[n + 1] != p[n + 1]);
            assert(g[n + 1] != b[n + 1]);
        }
    }
}

/// Loading the settings of a champion's group and restoring afterwards
/// gives the original settings back, with the game settings of the group
/// file carried over, for the locations of a client made from an ordinary
/// settings folder and every group whose name ends in a plain file name:
/// starting from a plain settings file holding `original` and no backup,
/// loading backs the settings up, creates the group file from them when it
/// does not exist (an existing one is never written), and links the
/// settings file to it; restoring, after the game changed the group file to
/// `played`, puts `original` back with the game settings of `played`.
pub proof fn lemma_client_load_then_restore(
    c: LeagueClientView,
    champion_id: u32,
    folders: Seq<char>,
    name: Seq<char>,
    dir: Option<Seq<char>>,
    fs: Files,
    original: SettingsContent,
    played: SettingsContent,
)
    requires
        ordinary_dir(c.config_folder),
        locations_from_folder(c),
        spec_champion_group(c.champion_groups, champion_id) matches Some(g) && group_path(
            g@,
            folders,
            name,
        ),
        fs.contains_key(c.settings_path),
        fs[c.settings_path] == Entry::Regular(original),
        !fs.contains_key(c.backup_path),
        fs.contains_key(group_file_location(c, folders, name)) ==> fs[group_file_location(
            c,
            folders,
            name,
        )] is Regular,
    ensures
        round_trip(
            c.settings_path,
            c.backup_path,
            group_file_location(c, folders, name),
            dir,
            fs,
            original,
            played,
        ),
{
    lemma_locations_distinct(c, folders, name);
    lemma_load_then_restore(
        c.settings_path,
        c.backup_path,
        group_file_location(c, folders, name),
        dir,
        fs,
        original,
        played,
    );
}

/// An optional text as plain values.
pub open spec fn opt_str(s: Option<&str>) -> Option<Seq<char>> {
    match s {
        None => None,
        Some(t) => Some(t@),
    }
}

/// After reading `champions`, every champion with a positive id is known by
/// its normalised alias, unless a later champion with a positive id has the
/// same normalised alias (the later one wins).
pub proof fn lemma_names_after_knows_champion(
    names: Map<Seq<char>, i32>,
    champions: Seq<ChampionMinimal>,
    i: int,
)
    requires
        0 <= i < champions.len(),
        champions[i].id > 0,
        forall|j: int|
            i < j < champions.len() && #[trigger] champions[j].id > 0 ==> normalize(
                champions[j].alias@,
            ) != normalize(champions[i].alias@),
    ensures
        names_after(names, champions).contains_key(normalize(champions[i].alias@)),
        names_after(names, champions)[normalize(champions[i].alias@)] == champions[i].id,
    decreases champions.len(),
{
    let last = (champions.len() - 1) as int;
    if i < last {
        let init = champions.drop_last();
        assert forall|j: int| i < j < init.len() && #[trigger] init[j].id > 0 implies normalize(
            init[j].alias@,
        ) != normalize(init[i].alias@) by {
            assert(init[j] == champions[j]);
            assert(champions[j].id > 0);
        }
        assert(init[i] == champions[i]);
        lemma_names_after_knows_champion(names, init, i);
        assert(champions.last() == champions[last]);
        if champions[last].id > 0 {
            assert(normalize(champions[last].alias@) != normalize(champions[i].alias@));
        }
    } else {
        assert(champions.last() == champions[i]);
    }
}

/// After reading `champions`, every known name was known before or is the
/// normalised alias of a champion with a positive id, known by that
/// champion's id or an earlier one's.
pub proof fn lemma_names_after_known_from(
    names: Map<Seq<char>, i32>,
    champions: Seq<ChampionMinimal>,
    k: Seq<char>,
)
    requires
        names_after(names, champions).contains_key(k),
    ensures
        names.contains_key(k) && names_after(names, champions)[k] == names[k] || exists|j: int|
            0 <= j < champions.len() && #[trigger] champions[j].id > 0 && normalize(
                champions[j].alias@,
            ) == k && champions[j].id == names_after(names, champions)[k],
    decreases champions.len(),
{
    if champions.len() > 0 {
        let init = champions.drop_last();
        let e = champions.last();
        let last = (champions.len() - 1) as int;
        assert(e == champions[last]);
        if e.id > 0 && normalize(e.alias@) == k {
            assert(champions[last].id > 0);
        } else {
            lemma_names_after_known_from(names, init, k);
            if !(names.contains_key(k) && names_after(names, champions)[k] == names[k]) {
                let j = choose|j: int|
                    0 <= j < init.len() && #[trigger] init[j].id > 0 && normalize(init[j].alias@)
                        == k && init[j].id == names_after(names, init)[k];
                assert(init[j] == champions[j]);
                assert(champions[j].id > 0);
            }
        }
    }
}

/// Every champion name that the client knows is kept in normal form.
pub open spec fn names_normalized(names: Map<Seq<char>, i32>) -> bool {
    forall|k: Seq<char>| #[trigger] names.contains_key(k) ==> normalize(k) == k
}

/// The champion names known after reading `champions` into `names`: every
/// champion with a positive id is known by its normalised alias; a later
/// champion with the same normalised alias wins.
pub open spec fn names_after(names: Map<Seq<char>, i32>, champions: Seq<ChampionMinimal>) -> Map<
    Seq<char>,
    i32,
>
    decreases champions.len(),
{
    if champions.len() == 0 {
        names
    } else {
        let prev = names_after(names, champions.drop_last());
        let e = champions.last();
        if e.id > 0 {
            prev.insert(normalize(e.alias@), e.id)
        } else {
            prev
        }
    }
}

/// The group assignments after the champions of one group are assigned to
/// it: each listed champion whose normalised name is known moves into
/// `group`.
pub open spec fn assign_group(
    m: Map<i32, String>,
    names: Map<Seq<char>, i32>,
    group: String,
    champions: Seq<String>,
) -> Map<i32, String>
    decreases champions.len(),
{
    if champions.len() == 0 {
        m
    } else {
        let prev = assign_group(m, names, group, champions.drop_last());
        let key = normalize(champions.last()@);
        if names.contains_key(key) {
            prev.insert(names[key], group)
        } else {
            prev
        }
    }
}

/// The group assignments that `groups`, walked in order, give.
pub open spec fn group_assignments(
    names: Map<Seq<char>, i32>,
    groups: Seq<(String, Vec<String>)>,
) -> Map<i32, String>
    decreases groups.len(),
{
    if groups.len() == 0 {
        Map::empty()
    } else {
        assign_group(
            group_assignments(names, groups.drop_last()),
            names,
            groups.last().0,
            groups.last().1@,
        )
    }
}

/// Member `i` is the first member of `team` who is the summoner `id`.
pub open spec fn is_first_member(team: Seq<TeamMember>, id: Seq<char>, i: int) -> bool {
    &&& 0 <= i < team.len()
    &&& team[i].summoner_id@ == id
    &&& forall|j: int| 0 <= j < i ==> #[trigger] team[j].summoner_id@ != id
}

/// The group of the champion `champion_id`, if it belongs to one.
pub open spec fn spec_champion_group(groups: Map<i32, String>, champion_id: u32) -> Option<String> {
    if champion_id <= i32::MAX && groups.contains_key(champion_id as i32) {
        Some(groups[champion_id as i32])
    } else {
        None
    }
}

/// The group `champions` names the champion `id`: one of its names,
/// normalised, is known as `id`.
pub open spec fn lists_champion(
    names: Map<Seq<char>, i32>,
    champions: Seq<String>,
    id: i32,
) -> bool {
    exists|j: int|
        0 <= j < champions.len() && names.contains_key(normalize(#[trigger] champions[j]@))
            && names[normalize(champions[j]@)] == id
}

/// Assigning one group: a champion that the group lists moves into it;
/// every other champion keeps the group it had, or stays without one.
pub proof fn lemma_assign_group(
    m: Map<i32, String>,
    names: Map<Seq<char>, i32>,
    group: String,
    champions: Seq<String>,
    id: i32,
)
    ensures
        assign_group(m, names, group, champions).contains_key(id) <==> (m.contains_key(id)
            || lists_champion(names, champions, id)),
        lists_champion(names, champions, id) ==> assign_group(m, names, group, champions)[id]
            == group,
        !lists_champion(names, champions, id) && m.contains_key(id) ==> assign_group(
            m,
            names,
            group,
            champions,
        )[id] == m[id],
    decreases champions.len(),
{
    if champions.len() > 0 {
        let init = champions.drop_last();
        lemma_assign_group(m, names, group, init, id);
        let last = champions.len() - 1;
        let key = normalize(champions[last]@);
        let last_lists = names.contains_key(key) && names[key] == id;
        if last_lists {
            assert(champions[last] == champions.last());
        }
        if lists_champion(names, init, id) {
            let j = choose|j: int|
                0 <= j < init.len() && names.contains_key(normalize(#[trigger] init[j]@))
                    && names[normalize(init[j]@)] == id;
            assert(init[j] == champions[j]);
        }
        if lists_champion(names, champions, id) && !last_lists {
            let j = choose|j: int|
                0 <= j < champions.len() && names.contains_key(normalize(#[trigger] champions[j]@))
                    && names[normalize(champions[j]@)] == id;
            assert(j != last);
            assert(init[j] == champions[j]);
        }
    }
}

/// Reloading the groups assigns a champion to a group exactly when some
/// group lists it, and then to the last group, in the order walked, that
/// lists it.
pub proof fn lemma_group_assignments(
    names: Map<Seq<char>, i32>,
    groups: Seq<(String, Vec<String>)>,
    id: i32,
)
    ensures
        group_assignments(names, groups).contains_key(id) <==> exists|i: int|
            0 <= i < groups.len() && #[trigger] lists_champion(names, groups[i].1@, id),
        group_assignments(names, groups).contains_key(id) ==> exists|i: int|
            0 <= i < groups.len() && #[trigger] lists_champion(names, groups[i].1@, id)
                && group_assignments(names, groups)[id] == groups[i].0 && forall|k: int|
                i < k < groups.len() ==> !#[trigger] lists_champion(names, groups[k].1@, id),
    decreases groups.len(),
{
    if groups.len() > 0 {
        let init = groups.drop_last();
        let n = groups.len() - 1;
        let last = groups[n];
        assert(last == groups.last());
        lemma_group_assignments(names, init, id);
        let prev = group_assignments(names, init);
        lemma_assign_group(prev, names, last.0, last.1@, id);
        if exists|i: int| 0 <= i < init.len() && #[trigger] lists_champion(names, init[i].1@, id) {
            let i = choose|i: int|
                0 <= i < init.len() && #[trigger] lists_champion(names, init[i].1@, id);
            assert(init[i] == groups[i]);
            assert(lists_champion(names, groups[i].1@, id));
        }
        if exists|i: int| 0 <= i < groups.len() && #[trigger] lists_champion(names, groups[i].1@, id) {
            let i = choose|i: int|
                0 <= i < groups.len() && #[trigger] lists_champion(names, groups[i].1@, id);
            if i < n {
                assert(init[i] == groups[i]);
                assert(lists_champion(names, init[i].1@, id));
            }
        }
        if group_assignments(names, groups).contains_key(id) {
            if lists_champion(names, last.1@, id) {
                assert(lists_champion(names, groups[n].1@, id));
            } else {
                let i = choose|i: int|
                    0 <= i < init.len() && #[trigger] lists_champion(names, init[i].1@, id)
                        && prev[id] == init[i].0 && forall|k: int|
                        i < k < init.len() ==> !#[trigger] lists_champion(names, init[k].1@, id);
                assert(init[i] == groups[i]);
                assert(lists_champion(names, groups[i].1@, id));
                assert forall|k: int| i < k < groups.len() implies !#[trigger] lists_champion(
                    names,
                    groups[k].1@,
                    id,
                ) by {
                    if k < n {
                        assert(init[k] == groups[k]);
                        assert(!lists_champion(names, init[k].1@, id));
                    }
                }
            }
        }
    }
}

/// After reloading the groups, looking up a champion gives the last group
/// that lists it, and nothing for a champion that no group lists or whose
/// id is beyond the range of champion ids.
pub proof fn lemma_champion_group_after_reload(
    names: Map<Seq<char>, i32>,
    groups: Seq<(String, Vec<String>)>,
    champion_id: u32,
)
    ensures
        spec_champion_group(group_assignments(names, groups), champion_id) is Some <==> (
        champion_id <= i32::MAX && exists|i: int|
            0 <= i < groups.len() && #[trigger] lists_champion(
                names,
                groups[i].1@,
                champion_id as i32,
            )),
        spec_champion_group(group_assignments(names, groups), champion_id) is Some ==> exists|
            i: int,
        |
            0 <= i < groups.len() && #[trigger] lists_champion(
                names,
                groups[i].1@,
                champion_id as i32,
            ) && spec_champion_group(group_assignments(names, groups), champion_id)
                == Some(groups[i].0) && forall|k: int|
                i < k < groups.len() ==> !#[trigger] lists_champion(
                    names,
                    groups[k].1@,
                    champion_id as i32,
                ),
{
    if champion_id <= i32::MAX {
        lemma_group_assignments(names, groups, champion_id as i32);
    }
}

/// Reading champions keeps every known name in normal form.
pub proof fn lemma_names_after_normalized(
    names: Map<Seq<char>, i32>,
    champions: Seq<ChampionMinimal>,
)
    requires
        names_normalized(names),
    ensures
        names_normalized(names_after(names, champions)),
    decreases champions.len(),
{
    if champions.len() > 0 {
        lemma_names_after_normalized(names, champions.drop_last());
        lemma_normalize_idempotent(champions.last().alias@);
    }
}

/// Champions without a positive id never become known.
pub proof fn lemma_names_after_skips_non_positive(
    names: Map<Seq<char>, i32>,
    champions: Seq<ChampionMinimal>,
)
    requires
        forall|i: int| 0 <= i < champions.len() ==> #[trigger] champions[i].id <= 0,
    ensures
        names_after(names, champions) == names,
    decreases champions.len(),
{
    if champions.len() > 0 {
        let init = champions.drop_last();
        assert forall|i: int| 0 <= i < init.len() implies #[trigger] init[i].id <= 0 by {
            assert(init[i] == champions[i]);
        }
        lemma_names_after_skips_non_positive(names, init);
        assert(champions[champions.len() - 1].id <= 0);
    }
}

impl LeagueClient {
    /// A client for the credentials of a running client whose settings live
    /// in `config_directory`; nothing is known yet of the summoner or the
    /// champions. The settings file is `PersistedSettings.json` in that
    /// folder, whatever the folder; for an ordinary folder the backup is
    /// `PersistedSettings.bak` beside it and the application's files are in
    /// `.dark-binding/` there.
    #[verifier::spinoff_prover]
    #[verifier::rlimit(40)]
    pub fn new(credentials: Credentials, config_directory: String) -> (r: LeagueClient)
        ensures
            r@.credentials == credentials@,
            r@.config_folder == config_directory@,
            r@.region is None,
            r@.local_summoner is None,
            r@.champion_names == Map::<Seq<char>, i32>::empty(),
            r@.champion_groups == Map::<i32, String>::empty(),
            ends_with(r@.settings_path, settings_file_name()),
            ordinary_dir(config_directory@) ==> locations_from_folder(r@),
    {
        proof {
            reveal_strlit("PersistedSettings.json");
            reveal_strlit("bak");
            reveal_strlit(".dark-binding/");
            reveal_strlit("groups.toml");
            assert("PersistedSettings.json"@ =~= settings_file_name());
            assert(".dark-binding/"@ =~= app_dir_name());
            assert("groups.toml"@ =~= groups_file_name());
            assert("bak"@ =~= seq!['b', 'a', 'k']);
            assert(plain_name(settings_file_name()));
        }
        let settings_path = path_join(config_directory.as_str(), "PersistedSettings.json");
        let backup_path = path_with_extension(settings_path.as_str(), "bak");
        let dark_binding_dir = path_join(config_directory.as_str(), ".dark-binding/");
        let groups_toml_path = path_join(dark_binding_dir.as_str(), "groups.toml");
        proof {
            if ordinary_dir(config_directory@) {
                let d = config_directory@;
                let p = settings_path@;
                assert(relative_name(settings_file_name()));
                assert(relative_name(app_dir_name()));
                lemma_joined_ordinary(d, settings_file_name(), p);
                lemma_joined_ordinary(d, app_dir_name(), dark_binding_dir@);
                let stem = p.take(p.len() - 5);
                let old = seq!['j', 's', 'o', 'n'];
                assert(p.subrange(p.len() - 22, p.len() as int) == settings_file_name());
                assert(p =~= stem + seq!['.'] + old);
                assert(stem.last() == 's');
                assert(extension_at(p, stem, old));
                assert(backup_path@ == stem + seq!['.'] + "bak"@);
                assert(p.take(p.len() - 4) =~= stem + seq!['.']);
                assert(backup_path@ =~= p.take(p.len() - 4) + seq!['b', 'a', 'k']);
                assert(relative_name(groups_file_name()));
                assert(dark_binding_dir@.last() == '/');
                assert(groups_toml_path@ =~= dark_binding_dir@ + groups_file_name());
            }
        }
        LeagueClient {
            credentials,
            config_folder: config_directory,
            settings_path,
            backup_path,
            dark_binding_dir,
            groups_toml_path,
            region: None,
            local_summoner: None,
            champion_names: StringHashMap::new(),
            champion_groups: HashMap::new(),
        }
    }

    /// The credentials of the client's local API.
    pub fn credentials(&self) -> (r: &Credentials)
        ensures
            r@ == self@.credentials,
    {
        &self.credentials
    }

    /// The directory that holds the game's settings.
    pub fn config_folder(&self) -> (r: &str)
        ensures
            r@ == self@.config_folder,
    {
        self.config_folder.as_str()
    }

    /// The region the summoner plays on, once known.
    pub fn region(&self) -> (r: Option<&String>)
        ensures
            match r {
                None => self@.region is None,
                Some(s) => self@.region == Some(s@),
            },
    {
        match &self.region {
            None => None,
            Some(s) => Some(s),
        }
    }

    /// The location of the settings file that the game reads.
    pub fn persisted_settings(&self) -> (r: String)
        ensures
            r@ == self@.settings_path,
    {
        self.settings_path.clone()
    }

    /// The location of the backup of the original settings file.
    pub fn persisted_settings_backup(&self) -> (r: String)
        ensures
            r@ == self@.backup_path,
    {
        self.backup_path.clone()
    }

    /// The location of the file that lists the champion groups.
    pub fn groups_toml(&self) -> (r: String)
        ensures
            r@ == self@.groups_toml_path,
    {
        self.groups_toml_path.clone()
    }

    /// The logged-in summoner, once known.
    pub fn local_summoner(&self) -> (r: Option<LocalSummoner>)
        ensures
            r == self@.local_summoner,
    {
        match &self.local_summoner {
            Some(s) => Some(s.clone()),
            None => None,
        }
    }

    /// The group of the champion `champion_id`, if it belongs to one.
    pub fn champion_group(&self, champion_id: u32) -> (r: Option<String>)
        ensures
            r == spec_champion_group(self@.champion_groups, champion_id),
    {
        if champion_id > 2147483647u32 {
            return None;
        }
        let key: i32 = champion_id as i32;
        match self.champion_groups.get(&key) {
            Some(g) => Some(g.clone()),
            None => None,
        }
    }

    /// The location of the settings file of the group of `champion_id`
    /// (the group's name inside the application's directory, with the
    /// extension `json`), or `None` when the champion belongs to no group
    /// (its settings are then left alone).
    pub fn champion_config(&self, champion_id: u32) -> (r: Option<String>)
        ensures
            r is Some <==> spec_champion_group(self@.champion_groups, champion_id) is Some,
            forall|g: String, folders: Seq<char>, name: Seq<char>|
                ordinary_dir(self@.config_folder) && locations_from_folder(self@)
                    && spec_champion_group(self@.champion_groups, champion_id) == Some(g)
                    && #[trigger] group_path(g@, folders, name) ==> opt_text(r) == Some(
                    group_file_location(self@, folders, name),
                ),
    {
        match self.champion_group(champion_id) {
            None => None,
            Some(group) => {
                let file = path_join(self.dark_binding_dir.as_str(), group.as_str());
                proof {
                    reveal_strlit("json");
                    assert("json"@ =~= group_extension());
                }
                let r = path_with_extension(file.as_str(), "json");
                proof {
                    assert forall|g: String, folders: Seq<char>, name: Seq<char>|
                        ordinary_dir(self@.config_folder) && locations_from_folder(self@)
                            && spec_champion_group(self@.champion_groups, champion_id) == Some(g)
                            && #[trigger] group_path(g@, folders, name) implies r@
                        == group_file_location(self@, folders, name) by {
                        let a = self@.dark_binding_dir;
                        assert(relative_name(app_dir_name()));
                        lemma_joined_ordinary(self@.config_folder, app_dir_name(), a);
                        assert(a.last() == '/');
                        assert(file@ == a + group@);
                        assert(file@ =~= (a + folders) + name);
                        assert((a + folders).last() == '/');
                        assert(file@[0] == a[0] && file@[1] == a[1]);
                        assert(file_name_at(file@, a + folders, name));
                    }
                }
                Some(r)
            },
        }
    }

    /// One stage of restoring the original settings, or of putting the group
    /// file `group_file` in place, for what was found before it: the
    /// operations to carry out, and the stage that follows.
    pub fn file_step(&self, group_file: Option<&str>, stage: FileStage, look: &FileLook) -> (r: (
        Vec<FsAction>,
        FileStage,
    ))
        ensures
            exists|dir: Option<Seq<char>>|
                (actions_view(r.0@), r.1) == stage_plan(
                    self@.settings_path,
                    self@.backup_path,
                    opt_str(group_file),
                    dir,
                    stage,
                    look@,
                ),
            match group_file {
                None => true,
                Some(g) => forall|dir: Seq<char>, name: Seq<char>|
                    #[trigger] parent_at(g@, dir, name) ==> (actions_view(r.0@), r.1) == stage_plan(
                        self@.settings_path,
                        self@.backup_path,
                        opt_str(group_file),
                        Some(dir),
                        stage,
                        look@,
                    ),
            },
    {
        let ghost s = self@.settings_path;
        let ghost b = self@.backup_path;
        let ghost g = opt_str(group_file);
        match stage {
            FileStage::RestoreFirst => {
                let actions = self.restore_first_actions(look.backup_present, look.settings_present);
                assert((actions_view(actions@), FileStage::RestoreSecond) == stage_plan(s, b, g, None, stage, look@));
                (actions, FileStage::RestoreSecond)
            },
            FileStage::RestoreSecond => {
                let link = match &look.settings_link {
                    Some(t) => Some(t.clone()),
                    None => None,
                };
                assert(opt_text(link) == look@.settings_link);
                let actions = self.restore_second_actions(link, look.backup_present);
                let next = match group_file {
                    Some(_) => FileStage::Prepare,
                    None => FileStage::Done,
                };
                assert((actions_view(actions@), next) == stage_plan(s, b, g, None, stage, look@));
                (actions, next)
            },
            FileStage::Prepare => match group_file {
                None => {
                    let actions: Vec<FsAction> = Vec::new();
                    assert((actions_view(actions@), FileStage::Done) =~= stage_plan(s, b, g, None, stage, look@));
                    (actions, FileStage::Done)
                },
                Some(file) => {
                    let actions = self.load_prepare_actions(file, look.group_file_present);
                    let ghost dir = choose|dir: Option<Seq<char>>|
                        actions_view(actions@) == prepare_plan(s, dir, file@, look.group_file_present);
                    assert((actions_view(actions@), FileStage::Backup) == stage_plan(s, b, g, dir, stage, look@));
                    (actions, FileStage::Backup)
                },
            },
            FileStage::Backup => match group_file {
                None => {
                    let actions: Vec<FsAction> = Vec::new();
                    assert((actions_view(actions@), FileStage::Done) =~= stage_plan(s, b, g, None, stage, look@));
                    (actions, FileStage::Done)
                },
                Some(_) => {
                    let actions = self.backup_actions(look.settings_present, look.settings_link.is_some());
                    assert((actions_view(actions@), FileStage::Link) == stage_plan(s, b, g, None, stage, look@));
                    (actions, FileStage::Link)
                },
            },
            FileStage::Link => match group_file {
                None => {
                    let actions: Vec<FsAction> = Vec::new();
                    assert((actions_view(actions@), FileStage::Done) =~= stage_plan(s, b, g, None, stage, look@));
                    (actions, FileStage::Done)
                },
                Some(file) => {
                    let actions = self.link_actions(file, look.settings_present);
                    assert((actions_view(actions@), FileStage::Done) == stage_plan(s, b, g, None, stage, look@));
                    (actions, FileStage::Done)
                },
            },
            FileStage::Done => {
                let actions: Vec<FsAction> = Vec::new();
                assert((actions_view(actions@), FileStage::Done) =~= stage_plan(s, b, g, None, stage, look@));
                (actions, FileStage::Done)
            },
        }
    }

    /// The first step of restoring the original settings, for what is found
    /// at the backup and the settings file.
    pub fn restore_first_actions(&self, backup_present: bool, settings_present: bool) -> (r: Vec<
        FsAction,
    >)
        ensures
            actions_view(r@) == restore_first_plan(
                self@.settings_path,
                self@.backup_path,
                backup_present,
                settings_present,
            ),
    {
        let ghost plan = restore_first_plan(
            self@.settings_path,
            self@.backup_path,
            backup_present,
            settings_present,
        );
        if restore_moves_backup(backup_present, settings_present) {
            let r = vec![
                FsAction::Copy { from: self.backup_path.clone(), to: self.settings_path.clone() },
                FsAction::Remove { path: self.backup_path.clone(), required: false },
            ];
            assert(actions_view(r@) =~= plan);
            r
        } else {
            let r: Vec<FsAction> = Vec::new();
            assert(actions_view(r@) =~= plan);
            r
        }
    }

    /// The second step of restoring, for where the settings file links to
    /// (if it is a link) and whether the backup is there.
    pub fn restore_second_actions(&self, settings_link: Option<String>, backup_present: bool) -> (r:
        Vec<FsAction>)
        ensures
            actions_view(r@) == restore_second_plan(
                self@.settings_path,
                self@.backup_path,
                opt_text(settings_link),
                backup_present,
            ),
    {
        let ghost plan = restore_second_plan(
            self@.settings_path,
            self@.backup_path,
            opt_text(settings_link),
            backup_present,
        );
        match settings_link {
            None => {
                let r: Vec<FsAction> = Vec::new();
                assert(actions_view(r@) =~= plan);
                r
            },
            Some(target) => {
                match restore_outcome(true, backup_present) {
                    RestoreOutcome::AdoptLinked => {
                        let r = vec![
                            FsAction::Remove { path: self.settings_path.clone(), required: true },
                            FsAction::Copy { from: target, to: self.settings_path.clone() },
                        ];
                        assert(actions_view(r@) =~= plan);
                        r
                    },
                    _ => {
                        let r = vec![
                            FsAction::MergeGameCfg { from: target, into: self.backup_path.clone() },
                            FsAction::Remove { path: self.settings_path.clone(), required: false },
                            FsAction::Rename {
                                from: self.backup_path.clone(),
                                to: self.settings_path.clone(),
                            },
                        ];
                        assert(actions_view(r@) =~= plan);
                        r
                    },
                }
            },
        }
    }

    /// Preparing the group file `group_file`, for whether it is there: when
    /// it is not, the directory that holds it is made and the current
    /// settings are copied into it.
    pub fn load_prepare_actions(&self, group_file: &str, group_file_present: bool) -> (r: Vec<
        FsAction,
    >)
        ensures
            exists|dir: Option<Seq<char>>|
                actions_view(r@) == prepare_plan(
                    self@.settings_path,
                    dir,
                    group_file@,
                    group_file_present,
                ),
            forall|dir: Seq<char>, name: Seq<char>|
                #[trigger] parent_at(group_file@, dir, name) ==> actions_view(r@) == prepare_plan(
                    self@.settings_path,
                    Some(dir),
                    group_file@,
                    group_file_present,
                ),
    {
        if group_file_present {
            let r: Vec<FsAction> = Vec::new();
            assert(actions_view(r@) =~= prepare_plan(
                self@.settings_path,
                None,
                group_file@,
                group_file_present,
            ));
            return r;
        }
        let copy = FsAction::Copy {
            from: self.settings_path.clone(),
            to: String::from_str(group_file),
        };
        match path_parent(group_file) {
            Some(dir) => {
                let ghost d = dir@;
                let r = vec![FsAction::EnsureDir { path: dir }, copy];
                assert(actions_view(r@) =~= prepare_plan(
                    self@.settings_path,
                    Some(d),
                    group_file@,
                    group_file_present,
                ));
                r
            },
            None => {
                let r = vec![copy];
                assert(actions_view(r@) =~= prepare_plan(
                    self@.settings_path,
                    None,
                    group_file@,
                    group_file_present,
                ));
                r
            },
        }
    }

    /// Backing up the settings file, for whether it exists and whether it is
    /// a link.
    pub fn backup_actions(&self, settings_present: bool, settings_is_link: bool) -> (r: Vec<
        FsAction,
    >)
        ensures
            actions_view(r@) == backup_plan(
                self@.settings_path,
                self@.backup_path,
                settings_present,
                settings_is_link,
            ),
    {
        let ghost plan = backup_plan(
            self@.settings_path,
            self@.backup_path,
            settings_present,
            settings_is_link,
        );
        if needs_backup(settings_present, settings_is_link) {
            let r = vec![
                FsAction::Copy { from: self.settings_path.clone(), to: self.backup_path.clone() },
            ];
            assert(actions_view(r@) =~= plan);
            r
        } else {
            let r: Vec<FsAction> = Vec::new();
            assert(actions_view(r@) =~= plan);
            r
        }
    }

    /// Putting the group file `group_file` in use, for whether the settings
    /// file exists.
    pub fn link_actions(&self, group_file: &str, settings_present: bool) -> (r: Vec<FsAction>)
        ensures
            actions_view(r@) == link_plan(self@.settings_path, group_file@, settings_present),
    {
        let ghost plan = link_plan(self@.settings_path, group_file@, settings_present);
        let link = FsAction::Link {
            target: String::from_str(group_file),
            link: self.settings_path.clone(),
        };
        if settings_present {
            let r = vec![
                FsAction::Remove { path: self.settings_path.clone(), required: false },
                link,
            ];
            assert(actions_view(r@) =~= plan);
            r
        } else {
            let r = vec![link];
            assert(actions_view(r@) =~= plan);
            r
        }
    }

    /// Reloads the champion groups: each group lists champion names, and
    /// every listed champion whose normalised name is known is assigned to
    /// the group. Groups are walked in the order given, so a champion listed
    /// in several groups ends up in the last of them. Earlier assignments are
    /// dropped.
    pub fn update_champion_groups(&mut self, groups: Vec<(String, Vec<String>)>)
        ensures
            final(self)@.champion_groups == group_assignments(
                old(self)@.champion_names,
                groups@,
            ),
            final(self)@.champion_names == old(self)@.champion_names,
            final(self)@.credentials == old(self)@.credentials,
            final(self)@.config_folder == old(self)@.config_folder,
            final(self)@.settings_path == old(self)@.settings_path,
            final(self)@.backup_path == old(self)@.backup_path,
            final(self)@.dark_binding_dir == old(self)@.dark_binding_dir,
            final(self)@.groups_toml_path == old(self)@.groups_toml_path,
            final(self)@.region == old(self)@.region,
            final(self)@.local_summoner == old(self)@.local_summoner,
    {
        self.champion_groups.clear();
        let ghost names = self.champion_names@;
        let mut i: usize = 0;
        assert(groups@.take(0) =~= Seq::<(String, Vec<String>)>::empty());
        while i < groups.len()
            invariant
                i <= groups@.len(),
                names == self.champion_names@,
                self.champion_groups@ == group_assignments(names, groups@.take(i as int)),
                self.credentials == old(self).credentials,
                self.config_folder == old(self).config_folder,
                self.settings_path == old(self).settings_path,
                self.backup_path == old(self).backup_path,
                self.dark_binding_dir == old(self).dark_binding_dir,
                self.groups_toml_path == old(self).groups_toml_path,
                self.region == old(self).region,
                self.local_summoner == old(self).local_summoner,
                self.champion_names == old(self).champion_names,
            decreases groups@.len() - i,
        {
            let group_name = &groups[i].0;
            let champions = &groups[i].1;
            let ghost before = self.champion_groups@;
            let mut j: usize = 0;
            assert(champions@.take(0) =~= Seq::<String>::empty());
            while j < champions.len()
                invariant
                    j <= champions@.len(),
                    champions == groups@[i as int].1,
                    *group_name == groups@[i as int].0,
                    names == self.champion_names@,
                    self.champion_groups@ == assign_group(
                        before,
                        names,
                        *group_name,
                        champions@.take(j as int),
                    ),
                    self.credentials == old(self).credentials,
                    self.config_folder == old(self).config_folder,
                    self.settings_path == old(self).settings_path,
                    self.backup_path == old(self).backup_path,
                    self.dark_binding_dir == old(self).dark_binding_dir,
                    self.groups_toml_path == old(self).groups_toml_path,
                    self.region == old(self).region,
                    self.local_summoner == old(self).local_summoner,
                    self.champion_names == old(self).champion_names,
                decreases champions@.len() - j,
            {
                let key = normalize_champion_name(champions[j].as_str());
                assert(champions@.take(j + 1).drop_last() =~= champions@.take(j as int));
                match self.champion_names.get(key.as_str()) {
                    Some(id) => {
                        let id: i32 = *id;
                        self.champion_groups.insert(id, group_name.clone());
                    },
                    None => {},
                }
                j = j + 1;
            }
            assert(champions@.take(champions@.len() as int) =~= champions@);
            assert(groups@.take(i + 1).drop_last() =~= groups@.take(i as int));
            i = i + 1;
        }
        assert(groups@.take(groups@.len() as int) =~= groups@);
    }

    /// Records the logged-in summoner and the champions of its inventory.
    /// Every champion with a positive id becomes known by its normalised
    /// alias; names known before stay known. The champion groups are to be
    /// reloaded afterwards, since they refer to champions by name.
    pub fn update_local_structs(
        &mut self,
        local_summoner: LocalSummoner,
        champions: Vec<ChampionMinimal>,
    )
        ensures
            final(self)@.champion_names == names_after(old(self)@.champion_names, champions@),
            final(self)@.local_summoner == Some(local_summoner),
            final(self)@.champion_groups == old(self)@.champion_groups,
            final(self)@.credentials == old(self)@.credentials,
            final(self)@.config_folder == old(self)@.config_folder,
            final(self)@.settings_path == old(self)@.settings_path,
            final(self)@.backup_path == old(self)@.backup_path,
            final(self)@.dark_binding_dir == old(self)@.dark_binding_dir,
            final(self)@.groups_toml_path == old(self)@.groups_toml_path,
            final(self)@.region == old(self)@.region,
    {
        let ghost start = self.champion_names@;
        let mut i: usize = 0;
        assert(champions@.take(0) =~= Seq::<ChampionMinimal>::empty());
        while i < champions.len()
            invariant
                i <= champions@.len(),
                self.champion_names@ == names_after(start, champions@.take(i as int)),
                self.credentials == old(self).credentials,
                self.config_folder == old(self).config_folder,
                self.settings_path == old(self).settings_path,
                self.backup_path == old(self).backup_path,
                self.dark_binding_dir == old(self).dark_binding_dir,
                self.groups_toml_path == old(self).groups_toml_path,
                self.region == old(self).region,
                self.local_summoner == old(self).local_summoner,
                self.champion_groups == old(self).champion_groups,
            decreases champions@.len() - i,
        {
            let e = &champions[i];
            assert(champions@.take(i + 1).drop_last() =~= champions@.take(i as int));
            if e.id > 0 {
                let key = normalize_champion_name(e.alias.as_str());
                self.champion_names.insert(key, e.id);
            }
            i = i + 1;
        }
        assert(champions@.take(champions@.len() as int) =~= champions@);
        self.local_summoner = Some(local_summoner);
    }

    /// Records the region that the sign-in service reports.
    pub fn init(&mut self, rso_auth: RSO)
        ensures
            final(self)@.region == Some(rso_auth.current_platform_id@),
            final(self)@.credentials == old(self)@.credentials,
            final(self)@.config_folder == old(self)@.config_folder,
            final(self)@.settings_path == old(self)@.settings_path,
            final(self)@.backup_path == old(self)@.backup_path,
            final(self)@.dark_binding_dir == old(self)@.dark_binding_dir,
            final(self)@.groups_toml_path == old(self)@.groups_toml_path,
            final(self)@.local_summoner == old(self)@.local_summoner,
            final(self)@.champion_names == old(self)@.champion_names,
            final(self)@.champion_groups == old(self)@.champion_groups,
    {
        self.region = Some(rso_auth.current_platform_id);
    }

    /// Shutting down has nothing to release; it always succeeds.
    pub fn shutdown(&self) -> (r: Result<(), ClientError>)
        ensures
            r is Ok,
    {
        Ok(())
    }

    /// The champion whose settings should be loaded for a champion-select
    /// update: only once the selection is finalised, the champion of the
    /// first team member who is the logged-in summoner.
    pub fn champion_to_load(&self, update: &ChampionSelectSessionUpdate) -> (r: Option<u32>)
        ensures
            match r {
                Some(c) => update.timer.phase == ChampionSelectTimerPhase::Finalization
                    && self@.local_summoner is Some && exists|i: int|
                    #[trigger] is_first_member(
                        update.my_team@,
                        self@.local_summoner.unwrap().summoner_id@,
                        i,
                    ) && update.my_team@[i].champion_id == c,
                None => update.timer.phase != ChampionSelectTimerPhase::Finalization
                    || self@.local_summoner is None || forall|i: int|
                    0 <= i < update.my_team@.len() ==> #[trigger] update.my_team@[i].summoner_id@
                        != self@.local_summoner.unwrap().summoner_id@,
            },
    {
        match update.timer.phase {
            ChampionSelectTimerPhase::Finalization => {},
            _ => return None,
        }
        let summoner_id = match &self.local_summoner {
            None => return None,
            Some(s) => &s.summoner_id,
        };
        let mut i: usize = 0;
        while i < update.my_team.len()
            invariant
                i <= update.my_team@.len(),
                update.timer.phase == ChampionSelectTimerPhase::Finalization,
                self.local_summoner is Some,
                *summoner_id == self.local_summoner.unwrap().summoner_id,
                forall|j: int|
                    0 <= j < i ==> #[trigger] update.my_team@[j].summoner_id@ != summoner_id@,
            decreases update.my_team@.len() - i,
        {
            if update.my_team[i].summoner_id == *summoner_id {
                let ghost k = i as int;
                assert(is_first_member(update.my_team@, summoner_id@, k));
                return Some(update.my_team[i].champion_id);
            }
            i = i + 1;
        }
        None
    }
}

} // verus!
