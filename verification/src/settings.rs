//! Settings of the monitor and its registration with Windows.

use vstd::prelude::*;

use crate::install;
use crate::text;

verus! {

broadcast use vstd::string::group_string_axioms;

/// What the user has set.
#[derive(Debug, Clone, Copy, PartialEq, Eq, Structural)]
pub struct AppSettings {
    pub start_with_windows: bool,
}

impl Default for AppSettings {
    /// Nothing starts with Windows unless the user asks for it.
    fn default() -> (settings: Self)
        ensures
            settings == (AppSettings { start_with_windows: false }),
    {
        AppSettings { start_with_windows: false }
    }
}

/// The settings that were found, or else the default.
pub open spec fn settings_found(found: Option<AppSettings>) -> AppSettings {
    match found {
        Some(settings) => settings,
        None => AppSettings { start_with_windows: false },
    }
}

impl AppSettings {
    /// The settings to begin with: those that were found, or the default where
    /// none could be read.
    pub fn found_or_default(found: Option<AppSettings>) -> (settings: Self)
        ensures
            settings == settings_found(found),
    {
        match found {
            Some(settings) => settings,
            None => AppSettings::default(),
        }
    }

    /// The parts of the path of the settings below the local application data.
    pub fn path_parts() -> (parts: Vec<&'static str>)
        ensures
            install::part_views(parts@) == seq!["WindowsCodexMonitor"@, "settings.json"@],
    {
        let parts: Vec<&'static str> = vec!["WindowsCodexMonitor", "settings.json"];
        proof {
            assert(install::part_views(parts@) =~= seq![
                "WindowsCodexMonitor"@,
                "settings.json"@,
            ]);
        }
        parts
    }
}

/// What to do in the list of programs that start with Windows.
#[derive(Debug, PartialEq)]
pub enum StartupChange {
    /// Set the entry of the monitor to this command.
    Register(String),
    /// Remove the entry of the monitor.
    Remove,
}

/// How removing the entry of the monitor went.
#[derive(Debug, PartialEq)]
pub enum Removal {
    Removed,
    /// There was no entry.
    Absent,
    /// It could not be removed; the text says why.
    Refused(String),
}

/// What can go wrong with settings and registration.
#[derive(Debug, PartialEq)]
pub enum SettingsFailure {
    NoLocalData,
    NoDirectory,
    DirectoryNotCreated(String),
    NotEncoded(String),
    NotSaved(String),
    StartupNotOpened(String),
    ExecutableNotFound(String),
    NotEnabled(String),
    NotDisabled(String),
}

impl SettingsFailure {
    /// The sentence that describes the failure.
    pub open spec fn sentence(self) -> Seq<char> {
        match self {
            SettingsFailure::NoLocalData => "LOCALAPPDATA is unavailable"@,
            SettingsFailure::NoDirectory => "Settings directory is unavailable"@,
            SettingsFailure::DirectoryNotCreated(reason) =>
                "Could not create settings directory: "@ + reason@,
            SettingsFailure::NotEncoded(reason) => reason@,
            SettingsFailure::NotSaved(reason) => "Could not save settings: "@ + reason@,
            SettingsFailure::StartupNotOpened(reason) =>
                "Could not open Windows startup settings: "@ + reason@,
            SettingsFailure::ExecutableNotFound(reason) =>
                "Could not locate monitor executable: "@ + reason@,
            SettingsFailure::NotEnabled(reason) => "Could not enable auto-start: "@ + reason@,
            SettingsFailure::NotDisabled(reason) => "Could not disable auto-start: "@ + reason@,
        }
    }

    /// Describes the failure in a sentence.
    pub fn message(&self) -> (sentence: String)
        ensures
            sentence@ == self.sentence(),
    {
        match self {
            SettingsFailure::NoLocalData => "LOCALAPPDATA is unavailable".to_owned(),
            SettingsFailure::NoDirectory => "Settings directory is unavailable".to_owned(),
            SettingsFailure::DirectoryNotCreated(reason) => text::joined(
                "Could not create settings directory: ",
                reason.as_str(),
            ),
            SettingsFailure::NotEncoded(reason) => reason.clone(),
            SettingsFailure::NotSaved(reason) => text::joined(
                "Could not save settings: ",
                reason.as_str(),
            ),
            SettingsFailure::StartupNotOpened(reason) => text::joined(
                "Could not open Windows startup settings: ",
                reason.as_str(),
            ),
            SettingsFailure::ExecutableNotFound(reason) => text::joined(
                "Could not locate monitor executable: ",
                reason.as_str(),
            ),
            SettingsFailure::NotEnabled(reason) => text::joined(
                "Could not enable auto-start: ",
                reason.as_str(),
            ),
            SettingsFailure::NotDisabled(reason) => text::joined(
                "Could not disable auto-start: ",
                reason.as_str(),
            ),
        }
    }
}

/// Whether a change has the monitor start with Windows, or not.
pub open spec fn is_change(
    change: Result<StartupChange, SettingsFailure>,
    enabled: bool,
    executable: Result<String, String>,
) -> bool {
    &&& !enabled ==> change == Ok::<StartupChange, SettingsFailure>(StartupChange::Remove)
    &&& enabled ==> match executable {
        Ok(path) => change matches Ok(StartupChange::Register(command)) && command@ == "\""@ + path@
            + "\""@,
        Err(reason) => change == Err::<StartupChange, SettingsFailure>(
            SettingsFailure::ExecutableNotFound(reason),
        ),
    }
}

/// Decides what to change so that the monitor starts with Windows, or does
/// not. Only for the former does the path of the executable count; the
/// command is that path in quotation marks.
pub fn startup_change(enabled: bool, executable: Result<String, String>) -> (change: Result<
    StartupChange,
    SettingsFailure,
>)
    ensures
        is_change(change, enabled, executable),
{
    if enabled {
        match executable {
            Ok(path) => {
                let mut command = text::joined("\"", path.as_str());
                command.append("\"");
                Ok(StartupChange::Register(command))
            },
            Err(reason) => Err(SettingsFailure::ExecutableNotFound(reason)),
        }
    } else {
        Ok(StartupChange::Remove)
    }
}

/// How auto-start was turned off.
pub open spec fn outcome_of(removal: Removal) -> Result<(), SettingsFailure> {
    match removal {
        Removal::Refused(reason) => Err(SettingsFailure::NotDisabled(reason)),
        _ => Ok(()),
    }
}

/// Judges the removal of the entry: that there was none is as good.
pub fn judge_removal(removal: Removal) -> (outcome: Result<(), SettingsFailure>)
    ensures
        outcome == outcome_of(removal),
{
    match removal {
        Removal::Removed => Ok(()),
        Removal::Absent => Ok(()),
        Removal::Refused(reason) => Err(SettingsFailure::NotDisabled(reason)),
    }
}

/// Settings that were found are taken as they are; without any the monitor does
/// not start with Windows.
pub proof fn law_found_settings_are_taken(settings: AppSettings)
    ensures
        settings_found(Some(settings)) == settings,
        !settings_found(None).start_with_windows,
{
}

/// Auto-start is turned on by an entry with the path of the executable between
/// quotation marks, and is not turned on where that is not known; it is turned
/// off by removing the entry, whatever is known of the path.
pub proof fn law_startup_entry_is_the_quoted_path(
    change: Result<StartupChange, SettingsFailure>,
    enabled: bool,
    executable: Result<String, String>,
)
    requires
        is_change(change, enabled, executable),
    ensures
        (change matches Ok(StartupChange::Remove)) <==> !enabled,
        (change matches Ok(StartupChange::Register(_))) <==> enabled && executable is Ok,
        change is Err <==> enabled && executable is Err,
        change matches Ok(StartupChange::Register(command)) ==> {
            let path = executable->Ok_0@;
            &&& command@.len() == path.len() + 2
            &&& command@.first() == '"'
            &&& command@.last() == '"'
            &&& command@.subrange(1, path.len() as int + 1) == path
        },
        change matches Err(failure) ==> failure.sentence()
            == "Could not locate monitor executable: "@ + executable->Err_0@,
{
    reveal_strlit("\"");
    if let Ok(StartupChange::Register(command)) = change {
        let path = executable->Ok_0@;
        assert(command@.subrange(1, path.len() as int + 1) =~= path);
    }
}

/// Auto-start is off after a removal unless that was refused: an entry that was
/// not there is as good as one that was removed.
pub proof fn law_only_a_refusal_keeps_the_entry(removal: Removal)
    ensures
        outcome_of(removal) is Err <==> removal is Refused,
        outcome_of(removal) matches Err(failure) ==> failure.sentence()
            == "Could not disable auto-start: "@ + removal->Refused_0@,
{
}

/// The sentences of the failures: each keeps its reason.
pub proof fn law_settings_sentences(reason: String)
    ensures
        SettingsFailure::NoLocalData.sentence() == "LOCALAPPDATA is unavailable"@,
        SettingsFailure::NoDirectory.sentence() == "Settings directory is unavailable"@,
        SettingsFailure::DirectoryNotCreated(reason).sentence()
            == "Could not create settings directory: "@ + reason@,
        SettingsFailure::NotEncoded(reason).sentence() == reason@,
        SettingsFailure::NotSaved(reason).sentence() == "Could not save settings: "@ + reason@,
        SettingsFailure::StartupNotOpened(reason).sentence()
            == "Could not open Windows startup settings: "@ + reason@,
        SettingsFailure::ExecutableNotFound(reason).sentence()
            == "Could not locate monitor executable: "@ + reason@,
        SettingsFailure::NotEnabled(reason).sentence() == "Could not enable auto-start: "@ + reason@,
        SettingsFailure::NotDisabled(reason).sentence() == "Could not disable auto-start: "@
            + reason@,
{
}

} // verus!
