use vstd::prelude::*;
use crate::error::ClientError;

verus! {

/// A JSON value, carried through the library without being looked into.
#[verifier::external_type_specification]
#[verifier::external_body]
pub struct ExJsonValue(serde_json::Value);

/// The error body that the client's HTTP API answers with.
#[derive(Debug, PartialEq, Eq)]
pub struct Error {
    pub error_code: String,
    pub http_status: u16,
    pub message: String,
}

/// The summoner who is logged into the client.
#[derive(Debug, PartialEq, Eq)]
pub struct LocalSummoner {
    pub display_name: String,
    pub account_id: String,
    pub summoner_id: String,
    pub summoner_level: u16,
    pub profile_icon_id: u32,
}

impl Clone for LocalSummoner {
    fn clone(&self) -> (r: Self)
        ensures
            r == *self,
    {
        LocalSummoner {
            display_name: self.display_name.clone(),
            account_id: self.account_id.clone(),
            summoner_id: self.summoner_id.clone(),
            summoner_level: self.summoner_level,
            profile_icon_id: self.profile_icon_id,
        }
    }
}

/// The answer of the client's sign-in service: the region played on.
#[derive(Debug, PartialEq, Eq)]
pub struct RSO {
    pub current_platform_id: String,
}

/// One player of the local team during champion select.
#[derive(Debug, PartialEq, Eq)]
pub struct TeamMember {
    pub summoner_id: String,
    pub champion_id: u32,
}

/// The phase of the champion-select timer.
#[derive(Debug, Clone, Copy, PartialEq, Eq, Structural)]
pub enum ChampionSelectTimerPhase {
    BanPick,
    Finalization,
    Other,
}

impl ChampionSelectTimerPhase {
    /// The phase that the client names `name`: `BAN_PICK` and
    /// `FINALIZATION` are known, every other name is `Other`.
    pub fn from_name(name: &str) -> (r: ChampionSelectTimerPhase)
        ensures
            r == spec_phase_from_name(name@),
    {
        let s = String::from_str(name);
        if s == String::from_str("BAN_PICK") {
            ChampionSelectTimerPhase::BanPick
        } else if s == String::from_str("FINALIZATION") {
            ChampionSelectTimerPhase::Finalization
        } else {
            ChampionSelectTimerPhase::Other
        }
    }
}

/// The phase that the client names `name`.
pub open spec fn spec_phase_from_name(name: Seq<char>) -> ChampionSelectTimerPhase {
    if name == "BAN_PICK"@ {
        ChampionSelectTimerPhase::BanPick
    } else if name == "FINALIZATION"@ {
        ChampionSelectTimerPhase::Finalization
    } else {
        ChampionSelectTimerPhase::Other
    }
}

/// The champion-select timer.
#[derive(Debug, PartialEq, Eq)]
pub struct ChampionSelectTimer {
    pub phase: ChampionSelectTimerPhase,
}

/// An update of the champion-select session.
#[derive(Debug, PartialEq, Eq)]
pub struct ChampionSelectSessionUpdate {
    pub my_team: Vec<TeamMember>,
    pub timer: ChampionSelectTimer,
}

/// One file of the client's persisted settings, with its sections kept as
/// JSON.
#[derive(Debug, PartialEq)]
pub struct InnerSettingsFile {
    pub name: String,
    pub sections: serde_json::Value,
}

/// The contents of `PersistedSettings.json`.
#[derive(Debug, PartialEq)]
pub struct PersistedSettings {
    pub description: String,
    pub files: Vec<InnerSettingsFile>,
}

/// One champion of the summoner's inventory.
#[derive(Debug, PartialEq, Eq)]
pub struct ChampionMinimal {
    pub id: i32,
    pub alias: String,
}

/// The shape of a JSON value that stands where an identifier is expected,
/// with a number already written out as text.
#[derive(Debug, PartialEq, Eq)]
pub enum JsonScalar {
    Str(String),
    Number(String),
    Bool(bool),
    Other,
}

/// The text of an identifier that the client sends as a string, a number or
/// a boolean.
pub open spec fn spec_to_str(value: JsonScalar) -> Result<Seq<char>, ClientError> {
    match value {
        JsonScalar::Str(s) => Ok(s@),
        JsonScalar::Number(n) => Ok(n@),
        JsonScalar::Bool(b) => Ok(if b { "true"@ } else { "false"@ }),
        JsonScalar::Other => Err(ClientError::UnexpectedValue),
    }
}

/// Reads an identifier that the client may send as a string, a number or a
/// boolean; anything else is refused.
pub fn to_str(value: JsonScalar) -> (r: Result<String, ClientError>)
    ensures
        match r {
            Ok(s) => spec_to_str(value) == Ok::<Seq<char>, ClientError>(s@),
            Err(e) => spec_to_str(value) == Err::<Seq<char>, ClientError>(e),
        },
{
    match value {
        JsonScalar::Str(s) => Ok(s),
        JsonScalar::Number(n) => Ok(n),
        JsonScalar::Bool(b) => {
            if b {
                Ok(String::from_str("true"))
            } else {
                Ok(String::from_str("false"))
            }
        },
        JsonScalar::Other => Err(ClientError::UnexpectedValue),
    }
}

/// The name of the settings file that holds the game settings.
pub open spec fn game_cfg_name() -> Seq<char> {
    "Game.cfg"@
}

/// The index of the first file at or after `i` whose name is `name`.
pub open spec fn index_from(files: Seq<InnerSettingsFile>, name: Seq<char>, i: int) -> Option<int>
    decreases files.len() - i,
{
    if i < 0 || i >= files.len() {
        None
    } else if files[i].name@ == name {
        Some(i)
    } else {
        index_from(files, name, i + 1)
    }
}

/// The index of the first file whose name is `name`.
pub open spec fn first_index(files: Seq<InnerSettingsFile>, name: Seq<char>) -> Option<int> {
    index_from(files, name, 0)
}

/// What `index_from` returns, stated without recursion.
proof fn lemma_index_from(files: Seq<InnerSettingsFile>, name: Seq<char>, i: int)
    requires
        0 <= i,
    ensures
        match index_from(files, name, i) {
            Some(k) => i <= k < files.len() && files[k].name@ == name && forall|j: int|
                i <= j < k ==> #[trigger] files[j].name@ != name,
            None => forall|j: int| i <= j < files.len() ==> #[trigger] files[j].name@ != name,
        },
    decreases files.len() - i,
{
    if i < files.len() && files[i].name@ != name {
        lemma_index_from(files, name, i + 1);
    }
}

/// The first file named `name` is the file at the least index with that name.
pub proof fn lemma_first_index(files: Seq<InnerSettingsFile>, name: Seq<char>)
    ensures
        match first_index(files, name) {
            Some(k) => 0 <= k < files.len() && files[k].name@ == name && forall|j: int|
                0 <= j < k ==> #[trigger] files[j].name@ != name,
            None => forall|j: int| 0 <= j < files.len() ==> #[trigger] files[j].name@ != name,
        },
{
    lemma_index_from(files, name, 0);
}

/// Finds the first file named `Game.cfg`.
fn find_game_cfg(files: &Vec<InnerSettingsFile>) -> (r: Option<usize>)
    ensures
        match r {
            Some(k) => first_index(files@, game_cfg_name()) == Some(k as int),
            None => first_index(files@, game_cfg_name()) is None,
        },
{
    let name = String::from_str("Game.cfg");
    let mut i: usize = 0;
    while i < files.len()
        invariant
            i <= files@.len(),
            name@ == game_cfg_name(),
            first_index(files@, game_cfg_name()) == index_from(files@, game_cfg_name(), i as int),
        decreases files@.len() - i,
    {
        if files[i].name == name {
            return Some(i);
        }
        i = i + 1;
    }
    None
}

/// The first `Game.cfg` of `current`, if it has one: the game settings
/// that restoring carries into the original settings.
pub fn take_game_cfg(current: PersistedSettings) -> (r: Option<InnerSettingsFile>)
    ensures
        match first_index(current.files@, game_cfg_name()) {
            None => r is None,
            Some(k) => r == Some(current.files@[k]),
        },
{
    let mut current = current;
    proof {
        lemma_first_index(current.files@, game_cfg_name());
    }
    match find_game_cfg(&current.files) {
        None => None,
        Some(k) => Some(current.files.remove(k)),
    }
}

/// `backup` with its first `Game.cfg`, if it has one, replaced by `cfg`.
pub open spec fn spec_replace_game_cfg(
    backup: Seq<InnerSettingsFile>,
    cfg: InnerSettingsFile,
) -> Seq<InnerSettingsFile> {
    match first_index(backup, game_cfg_name()) {
        None => backup,
        Some(j) => backup.update(j, cfg),
    }
}

/// Puts the game settings `cfg` into the original settings `backup`, in
/// place of its first `Game.cfg`; every other file stays as it was.
pub fn replace_game_cfg(backup: PersistedSettings, cfg: InnerSettingsFile) -> (r: PersistedSettings)
    ensures
        r.description == backup.description,
        r.files@ == spec_replace_game_cfg(backup.files@, cfg),
{
    let mut backup = backup;
    proof {
        lemma_first_index(backup.files@, game_cfg_name());
    }
    match find_game_cfg(&backup.files) {
        None => {},
        Some(j) => {
            backup.files.set(j, cfg);
        },
    }
    backup
}

} // verus!
