use vstd::prelude::*;
use crate::structs::{
    first_index,
    game_cfg_name,
    lemma_first_index,
    spec_replace_game_cfg,
    InnerSettingsFile,
};

verus! {

/// A file operation that the program carries out for the library, in
/// order, stopping at the first one that fails.
#[derive(Debug, PartialEq, Eq)]
pub enum FsAction {
    /// Copy the contents of `from` (following a link) to `to` (writing
    /// through a link at `to`).
    Copy { from: String, to: String },
    /// Remove the entry at `path` (a link itself, not what it points to);
    /// when `required` is false, a failure is ignored.
    Remove { path: String, required: bool },
    /// Move the entry at `from` to `to`, replacing what is there.
    Rename { from: String, to: String },
    /// Carry the game settings of the settings at `from` into the settings
    /// at `into`: nothing happens when `from` has no `Game.cfg`; otherwise
    /// the first `Game.cfg` of `into` is replaced and `into` is written back.
    MergeGameCfg { from: String, into: String },
    /// Create the directory `path` and its parents when it does not exist.
    EnsureDir { path: String },
    /// Create at `link` a link to `target`.
    Link { target: String, link: String },
}

/// A file operation as plain values.
pub enum FsActionView {
    Copy { from: Seq<char>, to: Seq<char> },
    Remove { path: Seq<char>, required: bool },
    Rename { from: Seq<char>, to: Seq<char> },
    MergeGameCfg { from: Seq<char>, into: Seq<char> },
    EnsureDir { path: Seq<char> },
    Link { target: Seq<char>, link: Seq<char> },
}

impl View for FsAction {
    type V = FsActionView;

    open spec fn view(&self) -> FsActionView {
        match self {
            FsAction::Copy { from, to } => FsActionView::Copy { from: from@, to: to@ },
            FsAction::Remove { path, required } => FsActionView::Remove {
                path: path@,
                required: *required,
            },
            FsAction::Rename { from, to } => FsActionView::Rename { from: from@, to: to@ },
            FsAction::MergeGameCfg { from, into } => FsActionView::MergeGameCfg {
                from: from@,
                into: into@,
            },
            FsAction::EnsureDir { path } => FsActionView::EnsureDir { path: path@ },
            FsAction::Link { target, link } => FsActionView::Link {
                target: target@,
                link: link@,
            },
        }
    }
}

/// A list of file operations as plain values.
pub open spec fn actions_view(actions: Seq<FsAction>) -> Seq<FsActionView> {
    actions.map_values(|a: FsAction| a@)
}

/// The contents of a settings file.
pub struct SettingsContent {
    pub description: Seq<char>,
    pub files: Seq<InnerSettingsFile>,
}

/// An entry of the file system: a settings file, or a link to another
/// location.
pub enum Entry {
    Regular(SettingsContent),
    Link(Seq<char>),
}

/// A model of the file system: what stands at each location.
pub type Files = Map<Seq<char>, Entry>;

/// The settings read at `loc`, following a link.
pub open spec fn read(fs: Files, loc: Seq<char>) -> Option<SettingsContent> {
    if !fs.contains_key(loc) {
        None
    } else {
        match fs[loc] {
            Entry::Regular(c) => Some(c),
            Entry::Link(t) => if fs.contains_key(t) {
                match fs[t] {
                    Entry::Regular(c) => Some(c),
                    Entry::Link(_) => None,
                }
            } else {
                None
            },
        }
    }
}

/// Something can be read at `loc` (as `Path::exists` asks, following a
/// link).
pub open spec fn present(fs: Files, loc: Seq<char>) -> bool {
    read(fs, loc) is Some
}

/// Where the link at `loc` points, if `loc` is a link.
pub open spec fn link_target(fs: Files, loc: Seq<char>) -> Option<Seq<char>> {
    if fs.contains_key(loc) {
        match fs[loc] {
            Entry::Link(t) => Some(t),
            Entry::Regular(_) => None,
        }
    } else {
        None
    }
}

/// The file system after writing `content` at `loc`, through a link.
pub open spec fn write_through(fs: Files, loc: Seq<char>, content: SettingsContent) -> Files {
    match link_target(fs, loc) {
        Some(t) => fs.insert(t, Entry::Regular(content)),
        None => fs.insert(loc, Entry::Regular(content)),
    }
}

/// What carrying the game settings of `current` into `original` gives.
pub open spec fn carried(current: SettingsContent, original: SettingsContent) -> SettingsContent {
    match first_index(current.files, game_cfg_name()) {
        None => original,
        Some(k) => SettingsContent {
            description: original.description,
            files: spec_replace_game_cfg(original.files, current.files[k]),
        },
    }
}

/// The file system after one operation, or `None` when it fails.
pub open spec fn apply_one(fs: Files, action: FsActionView) -> Option<Files> {
    match action {
        FsActionView::Copy { from, to } => match read(fs, from) {
            None => None,
            Some(c) => Some(write_through(fs, to, c)),
        },
        FsActionView::Remove { path, required } => if fs.contains_key(path) {
            Some(fs.remove(path))
        } else if required {
            None
        } else {
            Some(fs)
        },
        FsActionView::Rename { from, to } => if fs.contains_key(from) {
            Some(fs.remove(from).insert(to, fs[from]))
        } else {
            None
        },
        FsActionView::MergeGameCfg { from, into } => match read(fs, from) {
            None => None,
            Some(c) => match first_index(c.files, game_cfg_name()) {
                None => Some(fs),
                Some(_) => match read(fs, into) {
                    None => None,
                    Some(o) => Some(write_through(fs, into, carried(c, o))),
                },
            },
        },
        FsActionView::EnsureDir { path } => Some(fs),
        FsActionView::Link { target, link } => if fs.contains_key(link) {
            None
        } else {
            Some(fs.insert(link, Entry::Link(target)))
        },
    }
}

/// The file system after the operations, in order, or `None` when one
/// fails.
pub open spec fn apply(fs: Files, actions: Seq<FsActionView>) -> Option<Files>
    decreases actions.len(),
{
    if actions.len() == 0 {
        Some(fs)
    } else {
        match apply_one(fs, actions[0]) {
            None => None,
            Some(next) => apply(next, actions.drop_first()),
        }
    }
}

/// Applying no operation changes nothing.
pub proof fn lemma_apply_none(fs: Files)
    ensures
        apply(fs, seq![]) == Some(fs),
{
}

/// Applying one operation.
pub proof fn lemma_apply_single(fs: Files, a: FsActionView)
    ensures
        apply(fs, seq![a]) == apply_one(fs, a),
{
    let s = seq![a];
    assert(s.drop_first() =~= seq![]);
    match apply_one(fs, a) {
        None => {},
        Some(next) => {
            lemma_apply_none(next);
        },
    }
}

/// Applying two operations, one after the other.
pub proof fn lemma_apply_pair(fs: Files, a: FsActionView, b: FsActionView)
    ensures
        apply(fs, seq![a, b]) == match apply_one(fs, a) {
            None => None,
            Some(next) => apply_one(next, b),
        },
{
    let s = seq![a, b];
    assert(s.drop_first() =~= seq![b]);
    match apply_one(fs, a) {
        None => {},
        Some(next) => {
            lemma_apply_single(next, b);
        },
    }
}

/// Applying three operations, one after the other.
pub proof fn lemma_apply_triple(fs: Files, a: FsActionView, b: FsActionView, c: FsActionView)
    ensures
        apply(fs, seq![a, b, c]) == match apply_one(fs, a) {
            None => None,
            Some(next) => match apply_one(next, b) {
                None => None,
                Some(next2) => apply_one(next2, c),
            },
        },
{
    let s = seq![a, b, c];
    assert(s.drop_first() =~= seq![b, c]);
    match apply_one(fs, a) {
        None => {},
        Some(next) => {
            lemma_apply_pair(next, b, c);
        },
    }
}

/// Carrying a file's own game settings into it changes nothing.
pub proof fn lemma_carried_self(s: SettingsContent)
    ensures
        carried(s, s) == s,
{
    lemma_first_index(s.files, game_cfg_name());
    match first_index(s.files, game_cfg_name()) {
        None => {},
        Some(k) => {
            assert(s.files.update(k, s.files[k]) =~= s.files);
        },
    }
}

/// Carrying the same game settings a second time changes nothing.
pub proof fn lemma_carried_idempotent(current: SettingsContent, original: SettingsContent)
    ensures
        carried(current, carried(current, original)) == carried(current, original),
{
    lemma_first_index(current.files, game_cfg_name());
    lemma_first_index(original.files, game_cfg_name());
    match first_index(current.files, game_cfg_name()) {
        None => {},
        Some(k) => {
            let merged = carried(current, original).files;
            lemma_first_index(merged, game_cfg_name());
            match first_index(original.files, game_cfg_name()) {
                None => {
                    assert(merged == original.files);
                },
                Some(j) => {
                    assert(merged[j] == current.files[k]);
                    assert(first_index(merged, game_cfg_name()) == Some(j)) by {
                        match first_index(merged, game_cfg_name()) {
                            None => {
                                assert(merged[j].name@ == game_cfg_name());
                            },
                            Some(j2) => {
                                if j2 < j {
                                    assert(merged[j2] == original.files[j2]);
                                } else if j2 > j {
                                    assert(merged[j].name@ == game_cfg_name());
                                }
                            },
                        }
                    }
                    assert(merged.update(j, current.files[k]) =~= merged);
                },
            }
        },
    }
}

/// Carrying game settings touches no file of the original other than its
/// first `Game.cfg`, keeps its description, and never adds or drops a file.
pub proof fn lemma_carried_keeps_other_files(
    current: SettingsContent,
    original: SettingsContent,
    i: int,
)
    requires
        0 <= i < original.files.len(),
        first_index(original.files, game_cfg_name()) != Some(i),
    ensures
        carried(current, original).description == original.description,
        carried(current, original).files.len() == original.files.len(),
        carried(current, original).files[i] == original.files[i],
{
    lemma_first_index(current.files, game_cfg_name());
    lemma_first_index(original.files, game_cfg_name());
}

/// The first step of restoring: a backup left without a settings file is
/// copied back in place, and the backup removed (a failed removal is
/// ignored).
pub open spec fn restore_first_plan(
    settings: Seq<char>,
    backup: Seq<char>,
    backup_present: bool,
    settings_present: bool,
) -> Seq<FsActionView> {
    if backup_present && !settings_present {
        seq![
            FsActionView::Copy { from: backup, to: settings },
            FsActionView::Remove { path: backup, required: false },
        ]
    } else {
        seq![]
    }
}

/// The second step of restoring, once the settings file has been looked at
/// again: nothing when it is not a link; when it links to `target` and the
/// backup is gone, the linked settings become the permanent ones; otherwise
/// the game settings of `target` are carried into the backup, which replaces
/// the link.
pub open spec fn restore_second_plan(
    settings: Seq<char>,
    backup: Seq<char>,
    link: Option<Seq<char>>,
    backup_present: bool,
) -> Seq<FsActionView> {
    match link {
        None => seq![],
        Some(target) => if !backup_present {
            seq![
                FsActionView::Remove { path: settings, required: true },
                FsActionView::Copy { from: target, to: settings },
            ]
        } else {
            seq![
                FsActionView::MergeGameCfg { from: target, into: backup },
                FsActionView::Remove { path: settings, required: false },
                FsActionView::Rename { from: backup, to: settings },
            ]
        },
    }
}

/// Before a group's settings are used: when the group's file does not
/// exist, its directory `dir` is made and the current settings are copied
/// into it. An existing group file is never written.
pub open spec fn prepare_plan(
    settings: Seq<char>,
    dir: Option<Seq<char>>,
    group_file: Seq<char>,
    group_file_present: bool,
) -> Seq<FsActionView> {
    let copy = FsActionView::Copy { from: settings, to: group_file };
    if group_file_present {
        seq![]
    } else {
        match dir {
            Some(d) => seq![FsActionView::EnsureDir { path: d }, copy],
            None => seq![copy],
        }
    }
}

/// Backing up: an existing settings file that is not a link is copied to
/// the backup.
pub open spec fn backup_plan(
    settings: Seq<char>,
    backup: Seq<char>,
    settings_present: bool,
    settings_is_link: bool,
) -> Seq<FsActionView> {
    if settings_present && !settings_is_link {
        seq![FsActionView::Copy { from: settings, to: backup }]
    } else {
        seq![]
    }
}

/// Putting a group's settings in use: the settings file, when it exists,
/// is removed (a failure is ignored), and replaced by a link to the group's
/// file.
pub open spec fn link_plan(
    settings: Seq<char>,
    group_file: Seq<char>,
    settings_present: bool,
) -> Seq<FsActionView> {
    let link = FsActionView::Link { target: group_file, link: settings };
    if settings_present {
        seq![FsActionView::Remove { path: settings, required: false }, link]
    } else {
        seq![link]
    }
}

/// The files after restoring the original settings, each step decided on
/// what it finds.
pub open spec fn restore_model(settings: Seq<char>, backup: Seq<char>, fs: Files) -> Option<Files> {
    let first = restore_first_plan(
        settings,
        backup,
        present(fs, backup),
        present(fs, settings),
    );
    match apply(fs, first) {
        None => None,
        Some(fs1) => apply(
            fs1,
            restore_second_plan(
                settings,
                backup,
                link_target(fs1, settings),
                present(fs1, backup),
            ),
        ),
    }
}

/// The files after loading a group's settings: restoring first, then, when
/// the champion has a group file `group_file` (in the directory `dir`),
/// preparing it, backing up, and linking the settings file to it.
pub open spec fn load_model(
    settings: Seq<char>,
    backup: Seq<char>,
    group_file: Option<Seq<char>>,
    dir: Option<Seq<char>>,
    fs: Files,
) -> Option<Files> {
    match restore_model(settings, backup, fs) {
        None => None,
        Some(fs1) => match group_file {
            None => Some(fs1),
            Some(g) => match apply(fs1, prepare_plan(settings, dir, g, present(fs1, g))) {
                None => None,
                Some(fs2) => match apply(
                    fs2,
                    backup_plan(
                        settings,
                        backup,
                        present(fs2, settings),
                        link_target(fs2, settings) is Some,
                    ),
                ) {
                    None => None,
                    Some(fs3) => apply(fs3, link_plan(settings, g, present(fs3, settings))),
                },
            },
        },
    }
}

/// Loading from `fs` with the group file `group_file` backs the settings
/// (`original`) up, creates the group file from them when it does not
/// exist, and links the settings file to it; restoring, after the group file
/// was changed to `played`, puts the original settings back with the game
/// settings of `played`, and leaves no backup.
pub open spec fn round_trip(
    settings: Seq<char>,
    backup: Seq<char>,
    group_file: Seq<char>,
    dir: Option<Seq<char>>,
    fs: Files,
    original: SettingsContent,
    played: SettingsContent,
) -> bool {
    let group_content = if fs.contains_key(group_file) {
        fs[group_file]
    } else {
        Entry::Regular(original)
    };
    let loaded = fs.insert(group_file, group_content).insert(
        backup,
        Entry::Regular(original),
    ).insert(settings, Entry::Link(group_file));
    &&& load_model(settings, backup, Some(group_file), dir, fs) == Some(loaded)
    &&& restore_model(settings, backup, loaded.insert(group_file, Entry::Regular(played)))
        == Some(
        fs.insert(group_file, Entry::Regular(played)).insert(
            settings,
            Entry::Regular(carried(played, original)),
        ),
    )
}

/// Loading a group's settings and restoring afterwards gives the original
/// settings back, with the game settings (`Game.cfg`) of the group file
/// carried over, and leaves no backup. Starting from a plain settings file
/// holding `original` and no backup, loading backs the settings up, creates
/// the group file from them when it does not exist (an existing group file
/// is never written), and links the settings file to the group file;
/// restoring, after the group file was changed to `played` while the game
/// ran, puts the original settings back with the game settings of `played`.
/// The settings file, the backup and the group file are three locations.
pub proof fn lemma_load_then_restore(
    settings: Seq<char>,
    backup: Seq<char>,
    group_file: Seq<char>,
    dir: Option<Seq<char>>,
    fs: Files,
    original: SettingsContent,
    played: SettingsContent,
)
    requires
        settings != backup,
        group_file != settings,
        group_file != backup,
        fs.contains_key(settings),
        fs[settings] == Entry::Regular(original),
        !fs.contains_key(backup),
        fs.contains_key(group_file) ==> fs[group_file] is Regular,
    ensures
        round_trip(settings, backup, group_file, dir, fs, original, played),
{
    let p = settings;
    let b = backup;
    let g = group_file;
    let group_content = if fs.contains_key(g) {
        fs[g]
    } else {
        Entry::Regular(original)
    };
    // Restoring first finds nothing to do.
    lemma_apply_none(fs);
    assert(restore_model(p, b, fs) == Some(fs));
    // Preparing the group file.
    let fs2 = fs.insert(g, group_content);
    if present(fs, g) {
        assert(fs2 =~= fs);
    } else {
        let copy = FsActionView::Copy { from: p, to: g };
        match dir {
            Some(d) => {
                lemma_apply_pair(fs, FsActionView::EnsureDir { path: d }, copy);
            },
            None => {
                lemma_apply_single(fs, copy);
            },
        }
        assert(!fs.contains_key(g));
    }
    assert(apply(fs, prepare_plan(p, dir, g, present(fs, g))) == Some(fs2));
    // Backing up.
    let fs3 = fs2.insert(b, Entry::Regular(original));
    lemma_apply_single(fs2, FsActionView::Copy { from: p, to: b });
    assert(apply(fs2, backup_plan(p, b, present(fs2, p), link_target(fs2, p) is Some)) == Some(
        fs3,
    ));
    // Linking.
    let loaded = fs2.insert(b, Entry::Regular(original)).insert(p, Entry::Link(g));
    lemma_apply_pair(
        fs3,
        FsActionView::Remove { path: p, required: false },
        FsActionView::Link { target: g, link: p },
    );
    assert(fs3.remove(p).insert(p, Entry::Link(g)) =~= loaded);
    assert(load_model(p, b, Some(g), dir, fs) == Some(loaded));
    // Restoring after the game.
    let fs4 = loaded.insert(g, Entry::Regular(played));
    assert(present(fs4, b));
    assert(present(fs4, p));
    lemma_apply_none(fs4);
    assert(link_target(fs4, p) == Some(g));
    let merged = carried(played, original);
    let fs5 = fs4.insert(b, Entry::Regular(merged));
    assert(apply_one(fs4, FsActionView::MergeGameCfg { from: g, into: b }) == Some(fs5)) by {
        assert(read(fs4, g) == Some(played));
        assert(read(fs4, b) == Some(original));
        if first_index(played.files, game_cfg_name()) is None {
            assert(fs5 =~= fs4);
        }
    }
    lemma_apply_triple(
        fs4,
        FsActionView::MergeGameCfg { from: g, into: b },
        FsActionView::Remove { path: p, required: false },
        FsActionView::Rename { from: b, to: p },
    );
    let fs6 = fs5.remove(p);
    assert(apply_one(fs6, FsActionView::Rename { from: b, to: p }) == Some(
        fs6.remove(b).insert(p, Entry::Regular(merged)),
    ));
    assert(fs6.remove(b).insert(p, Entry::Regular(merged)) =~= fs.insert(
        g,
        Entry::Regular(played),
    ).insert(p, Entry::Regular(merged)));
}

/// Loading and restoring with no game played in between leaves the
/// settings file as it was, leaves the group file holding the settings it
/// was made from, and leaves no backup.
pub proof fn lemma_load_then_restore_unchanged(
    settings: Seq<char>,
    backup: Seq<char>,
    group_file: Seq<char>,
    dir: Option<Seq<char>>,
    fs: Files,
    original: SettingsContent,
)
    requires
        settings != backup,
        group_file != settings,
        group_file != backup,
        fs.contains_key(settings),
        fs[settings] == Entry::Regular(original),
        !fs.contains_key(backup),
        !fs.contains_key(group_file),
    ensures
        load_model(settings, backup, Some(group_file), dir, fs) matches Some(loaded)
            && restore_model(settings, backup, loaded) == Some(
            fs.insert(group_file, Entry::Regular(original)),
        ),
{
    let p = settings;
    let b = backup;
    let g = group_file;
    lemma_load_then_restore(p, b, g, dir, fs, original, original);
    lemma_carried_self(original);
    let loaded = fs.insert(g, Entry::Regular(original)).insert(b, Entry::Regular(original)).insert(
        p,
        Entry::Link(g),
    );
    assert(loaded.insert(g, Entry::Regular(original)) =~= loaded);
    assert(fs.insert(g, Entry::Regular(original)).insert(p, Entry::Regular(original)) =~= fs.insert(
        g,
        Entry::Regular(original),
    ));
}

/// Restoring has nothing left to do once the settings file is not a link
/// and either exists or has no backup beside it.
proof fn lemma_restore_settled(settings: Seq<char>, backup: Seq<char>, fs: Files)
    requires
        link_target(fs, settings) is None,
        present(fs, settings) || !present(fs, backup),
    ensures
        restore_model(settings, backup, fs) == Some(fs),
{
    lemma_apply_none(fs);
}

/// Restoring twice is restoring once: after a restore that succeeded,
/// restoring again changes no file. (When the backup is itself a link,
/// restoring can put that link in place of the settings file, and a second
/// restore then replaces the link; such a backup is left out.)
pub proof fn lemma_restore_idempotent(settings: Seq<char>, backup: Seq<char>, fs: Files)
    requires
        settings != backup,
        !(fs.contains_key(backup) && fs[backup] is Link),
        restore_model(settings, backup, fs) is Some,
    ensures
        restore_model(settings, backup, restore_model(settings, backup, fs).unwrap())
            == restore_model(settings, backup, fs),
{
    let p = settings;
    let b = backup;
    if present(fs, b) && !present(fs, p) {
        let cb = read(fs, b).unwrap();
        let fs_a = write_through(fs, p, cb);
        let fs_b = fs_a.remove(b);
        lemma_apply_pair(
            fs,
            FsActionView::Copy { from: b, to: p },
            FsActionView::Remove { path: b, required: false },
        );
        assert(fs_a.contains_key(b));
        assert(apply(fs, restore_first_plan(p, b, true, false)) == Some(fs_b));
        match link_target(fs, p) {
            None => {
                assert(fs_b[p] == Entry::Regular(cb));
                assert(link_target(fs_b, p) is None);
                lemma_apply_none(fs_b);
                assert(restore_model(p, b, fs) == Some(fs_b));
                lemma_restore_settled(p, b, fs_b);
            },
            Some(t) => {
                if t == p {
                    assert(fs_b[p] == Entry::Regular(cb));
                    lemma_apply_none(fs_b);
                    assert(restore_model(p, b, fs) == Some(fs_b));
                    lemma_restore_settled(p, b, fs_b);
                } else {
                    assert(link_target(fs_b, p) == Some(t));
                    assert(!present(fs_b, b));
                    lemma_apply_pair(
                        fs_b,
                        FsActionView::Remove { path: p, required: true },
                        FsActionView::Copy { from: t, to: p },
                    );
                    let fs_c = fs_b.remove(p);
                    let c = read(fs_c, t).unwrap();
                    let fs_d = fs_c.insert(p, Entry::Regular(c));
                    assert(restore_model(p, b, fs) == Some(fs_d));
                    lemma_restore_settled(p, b, fs_d);
                }
            },
        }
    } else {
        lemma_apply_none(fs);
        assert(restore_first_plan(p, b, present(fs, b), present(fs, p)) =~= seq![]);
        match link_target(fs, p) {
            None => {
                lemma_restore_settled(p, b, fs);
            },
            Some(t) => {
                if !present(fs, b) {
                    lemma_apply_pair(
                        fs,
                        FsActionView::Remove { path: p, required: true },
                        FsActionView::Copy { from: t, to: p },
                    );
                    let fs_c = fs.remove(p);
                    let c = read(fs_c, t).unwrap();
                    let fs_d = fs_c.insert(p, Entry::Regular(c));
                    assert(restore_model(p, b, fs) == Some(fs_d));
                    lemma_restore_settled(p, b, fs_d);
                } else {
                    lemma_apply_triple(
                        fs,
                        FsActionView::MergeGameCfg { from: t, into: b },
                        FsActionView::Remove { path: p, required: false },
                        FsActionView::Rename { from: b, to: p },
                    );
                    let fs_m = apply_one(fs, FsActionView::MergeGameCfg { from: t, into: b }).unwrap();
                    assert(fs_m.contains_key(b) && fs_m[b] is Regular);
                    let fs_r = fs_m.remove(p);
                    let fs_n = fs_r.remove(b).insert(p, fs_r[b]);
                    assert(restore_model(p, b, fs) == Some(fs_n));
                    assert(fs_n[p] is Regular);
                    lemma_restore_settled(p, b, fs_n);
                }
            },
        }
    }
}

/// Where the program is in restoring the original settings or in putting a
/// group's settings in place. Restoring is the two first stages; loading a
/// group's settings goes on with the others.
#[derive(Debug, Clone, Copy, PartialEq, Eq, Structural)]
pub enum FileStage {
    RestoreFirst,
    RestoreSecond,
    Prepare,
    Backup,
    Link,
    Done,
}

/// What the program found before a step: whether the settings file, the
/// backup and the group file exist, and where the settings file links to
/// when it is a link.
pub struct FileLook {
    pub settings_present: bool,
    pub settings_link: Option<String>,
    pub backup_present: bool,
    pub group_file_present: bool,
}

/// A look as plain values.
pub struct FileLookView {
    pub settings_present: bool,
    pub settings_link: Option<Seq<char>>,
    pub backup_present: bool,
    pub group_file_present: bool,
}

impl View for FileLook {
    type V = FileLookView;

    open spec fn view(&self) -> FileLookView {
        FileLookView {
            settings_present: self.settings_present,
            settings_link: match self.settings_link {
                None => None,
                Some(t) => Some(t@),
            },
            backup_present: self.backup_present,
            group_file_present: self.group_file_present,
        }
    }
}

/// What a look at `fs` finds, for the settings file, the backup and the
/// group file (if there is one).
pub open spec fn look_at(
    fs: Files,
    settings: Seq<char>,
    backup: Seq<char>,
    group_file: Option<Seq<char>>,
) -> FileLookView {
    FileLookView {
        settings_present: present(fs, settings),
        settings_link: link_target(fs, settings),
        backup_present: present(fs, backup),
        group_file_present: match group_file {
            None => false,
            Some(g) => present(fs, g),
        },
    }
}

/// The operations of one stage, for what was found, and the stage after
/// it. Without a group file the work ends after restoring.
pub open spec fn stage_plan(
    settings: Seq<char>,
    backup: Seq<char>,
    group_file: Option<Seq<char>>,
    dir: Option<Seq<char>>,
    stage: FileStage,
    look: FileLookView,
) -> (Seq<FsActionView>, FileStage) {
    match stage {
        FileStage::RestoreFirst => (
            restore_first_plan(settings, backup, look.backup_present, look.settings_present),
            FileStage::RestoreSecond,
        ),
        FileStage::RestoreSecond => (
            restore_second_plan(settings, backup, look.settings_link, look.backup_present),
            if group_file is Some {
                FileStage::Prepare
            } else {
                FileStage::Done
            },
        ),
        FileStage::Prepare => match group_file {
            None => (seq![], FileStage::Done),
            Some(g) => (prepare_plan(settings, dir, g, look.group_file_present), FileStage::Backup),
        },
        FileStage::Backup => match group_file {
            None => (seq![], FileStage::Done),
            Some(_) => (
                backup_plan(settings, backup, look.settings_present, look.settings_link is Some),
                FileStage::Link,
            ),
        },
        FileStage::Link => match group_file {
            None => (seq![], FileStage::Done),
            Some(g) => (link_plan(settings, g, look.settings_present), FileStage::Done),
        },
        FileStage::Done => (seq![], FileStage::Done),
    }
}

/// The files after running the stages from `stage` on, at most `steps` of
/// them, each deciding on what it finds; `None` when an operation fails or
/// the stages do not end in time.
pub open spec fn run_stages(
    settings: Seq<char>,
    backup: Seq<char>,
    group_file: Option<Seq<char>>,
    dir: Option<Seq<char>>,
    stage: FileStage,
    fs: Files,
    steps: nat,
) -> Option<Files>
    decreases steps,
{
    if stage == FileStage::Done {
        Some(fs)
    } else if steps == 0 {
        None
    } else {
        let (plan, next) = stage_plan(
            settings,
            backup,
            group_file,
            dir,
            stage,
            look_at(fs, settings, backup, group_file),
        );
        match apply(fs, plan) {
            None => None,
            Some(fs2) => run_stages(settings, backup, group_file, dir, next, fs2, (steps - 1) as nat),
        }
    }
}

/// Running the stages from the first one restores the original settings
/// (two stages) when there is no group file, and loads the group's settings
/// (five stages) when there is one: the order of the stages is that of
/// restoring and of loading.
pub proof fn lemma_stages_follow_models(
    settings: Seq<char>,
    backup: Seq<char>,
    group_file: Seq<char>,
    dir: Option<Seq<char>>,
    fs: Files,
)
    ensures
        run_stages(settings, backup, None, dir, FileStage::RestoreFirst, fs, 2) == restore_model(
            settings,
            backup,
            fs,
        ),
        run_stages(settings, backup, Some(group_file), dir, FileStage::RestoreFirst, fs, 5)
            == load_model(settings, backup, Some(group_file), dir, fs),
{
    reveal_with_fuel(run_stages, 6);
}

} // verus!
