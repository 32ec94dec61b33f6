use vstd::prelude::*;

verus! {

/// Whether the settings file should be backed up before a group's settings
/// replace it: only an existing file that is not already a link to a
/// group's settings is the original.
pub fn needs_backup(settings_exists: bool, settings_is_link: bool) -> (r: bool)
    ensures
        r == (settings_exists && !settings_is_link),
{
    settings_exists && !settings_is_link
}

/// Whether restoring starts by moving a stray backup back in place: when a
/// backup exists but the settings file does not.
pub fn restore_moves_backup(backup_exists: bool, settings_exists: bool) -> (r: bool)
    ensures
        r == (backup_exists && !settings_exists),
{
    backup_exists && !settings_exists
}

/// What restoring does once the settings file has been looked at.
#[derive(Debug, Clone, Copy, PartialEq, Eq, Structural)]
pub enum RestoreOutcome {
    /// The settings file is not one of the application's links: nothing
    /// is left to do.
    NotLinked,
    /// The backup is gone: the settings that the link points to become the
    /// permanent settings.
    AdoptLinked,
    /// The game settings of the linked file are carried into the backup,
    /// which then replaces the link.
    MergeIntoBackup,
}

/// What restoring does for a settings file that is or is not a link, with
/// or without a backup.
pub open spec fn spec_restore_outcome(settings_is_link: bool, backup_exists: bool) -> RestoreOutcome {
    if !settings_is_link {
        RestoreOutcome::NotLinked
    } else if !backup_exists {
        RestoreOutcome::AdoptLinked
    } else {
        RestoreOutcome::MergeIntoBackup
    }
}

/// Decides how to restore the original settings.
pub fn restore_outcome(settings_is_link: bool, backup_exists: bool) -> (r: RestoreOutcome)
    ensures
        r == spec_restore_outcome(settings_is_link, backup_exists),
{
    if !settings_is_link {
        RestoreOutcome::NotLinked
    } else if !backup_exists {
        RestoreOutcome::AdoptLinked
    } else {
        RestoreOutcome::MergeIntoBackup
    }
}

} // verus!
