use windowscodexmonitor::settings::{
    judge_removal, startup_change, AppSettings, Removal, SettingsFailure, StartupChange,
};

#[test]
fn nothing_starts_with_windows_by_default() {
    assert!(!AppSettings::default().start_with_windows);
    assert!(!AppSettings::found_or_default(None).start_with_windows);
}

#[test]
fn found_settings_are_kept() {
    let found = AppSettings { start_with_windows: true };
    assert_eq!(AppSettings::found_or_default(Some(found)), found);
}

#[test]
fn knows_where_the_settings_are() {
    assert_eq!(AppSettings::path_parts(), vec!["WindowsCodexMonitor", "settings.json"]);
}

#[test]
fn registers_the_executable_in_quotation_marks() {
    assert_eq!(
        startup_change(true, Ok("C:\\Program Files\\monitor.exe".to_owned())),
        Ok(StartupChange::Register("\"C:\\Program Files\\monitor.exe\"".to_owned()))
    );
}

#[test]
fn registers_nothing_without_an_executable() {
    assert_eq!(
        startup_change(true, Err("gone".to_owned())),
        Err(SettingsFailure::ExecutableNotFound("gone".to_owned()))
    );
}

#[test]
fn removes_without_an_executable() {
    assert_eq!(startup_change(false, Err("gone".to_owned())), Ok(StartupChange::Remove));
}

#[test]
fn an_absent_entry_counts_as_removed() {
    assert_eq!(judge_removal(Removal::Removed), Ok(()));
    assert_eq!(judge_removal(Removal::Absent), Ok(()));
    assert_eq!(
        judge_removal(Removal::Refused("denied".to_owned())),
        Err(SettingsFailure::NotDisabled("denied".to_owned()))
    );
}

#[test]
fn describes_every_settings_failure() {
    let reason = || "why".to_owned();
    for (failure, sentence) in [
        (SettingsFailure::NoLocalData, "LOCALAPPDATA is unavailable"),
        (SettingsFailure::NoDirectory, "Settings directory is unavailable"),
        (
            SettingsFailure::DirectoryNotCreated(reason()),
            "Could not create settings directory: why",
        ),
        (SettingsFailure::NotEncoded(reason()), "why"),
        (SettingsFailure::NotSaved(reason()), "Could not save settings: why"),
        (
            SettingsFailure::StartupNotOpened(reason()),
            "Could not open Windows startup settings: why",
        ),
        (
            SettingsFailure::ExecutableNotFound(reason()),
            "Could not locate monitor executable: why",
        ),
        (SettingsFailure::NotEnabled(reason()), "Could not enable auto-start: why"),
        (SettingsFailure::NotDisabled(reason()), "Could not disable auto-start: why"),
    ] {
        assert_eq!(failure.message(), sentence);
    }
}
