use windowscodexmonitor::control::{
    launch_mode, LaunchMode, Monitor, MonitorAction, MonitorEvent, Origin,
};
use windowscodexmonitor::popup::PopupTarget;
use windowscodexmonitor::settings::AppSettings;
use windowscodexmonitor::{MonitorStatus, WeeklyQuota};

fn monitor(start_with_windows: bool) -> Monitor {
    Monitor::new(AppSettings { start_with_windows })
}

fn mode(arguments: &[&str]) -> LaunchMode {
    launch_mode(&arguments.iter().map(|argument| argument.to_string()).collect())
}

#[test]
fn reads_the_command_line() {
    assert_eq!(mode(&["monitor.exe"]), LaunchMode::Run { preview: false });
    assert_eq!(mode(&["monitor.exe", "--preview"]), LaunchMode::Run { preview: true });
    assert_eq!(mode(&["monitor.exe", "--diagnose"]), LaunchMode::Diagnose);
    assert_eq!(mode(&["monitor.exe", "--preview", "--diagnose"]), LaunchMode::Diagnose);
    assert_eq!(mode(&["--Preview", "--diagnose=1"]), LaunchMode::Run { preview: false });
    assert_eq!(mode(&[]), LaunchMode::Run { preview: false });
}

#[test]
fn shows_what_was_read() {
    let mut monitor = monitor(false);
    let quota = WeeklyQuota { remaining_percent: 12, resets_at_unix_seconds: Some(5) };
    assert_eq!(
        monitor.handle(MonitorEvent::UsageRead(Ok(quota))),
        vec![MonitorAction::UpdateTray, MonitorAction::RedrawPopup]
    );
    assert_eq!(monitor.state.remaining_percent, 12);
    assert_eq!(monitor.state.last_error, None);
    assert_eq!(
        monitor.handle(MonitorEvent::StatusRead(MonitorStatus::Waiting)),
        vec![MonitorAction::UpdateTray, MonitorAction::RedrawPopup]
    );
    assert_eq!(monitor.state.status, MonitorStatus::Waiting);
    monitor.handle(MonitorEvent::UsageRead(Err("gone".to_owned())));
    assert_eq!(monitor.state.status, MonitorStatus::Offline);
    assert_eq!(monitor.state.remaining_percent, 12);
}

#[test]
fn answers_menu_and_tray() {
    let mut monitor = monitor(false);
    assert_eq!(monitor.handle(MonitorEvent::RefreshChosen), vec![MonitorAction::RequestUsage]);
    assert_eq!(monitor.handle(MonitorEvent::ExitChosen), vec![MonitorAction::Exit]);
    assert_eq!(
        monitor.handle(MonitorEvent::TrayClicked),
        vec![MonitorAction::OpenPopup, MonitorAction::RequestUsage]
    );
    assert_eq!(
        monitor.handle(MonitorEvent::PopupClicked(PopupTarget::Refresh)),
        vec![MonitorAction::RequestUsage]
    );
    assert_eq!(monitor.handle(MonitorEvent::PopupClicked(PopupTarget::Nothing)), vec![]);
    assert_eq!(monitor.handle(MonitorEvent::PopupClosed), vec![MonitorAction::ClosePopup]);
}

#[test]
fn turns_auto_start_from_the_menu() {
    let mut monitor = monitor(false);
    assert_eq!(
        monitor.handle(MonitorEvent::AutoStartItemTurned(true)),
        vec![MonitorAction::ChangeAutoStart(Origin::Menu, true)]
    );
    assert!(monitor.settings.start_with_windows);
    assert_eq!(
        monitor.handle(MonitorEvent::AutoStartChanged(Origin::Menu, Ok(()))),
        vec![MonitorAction::SaveSettings(Origin::Menu)]
    );
    assert_eq!(
        monitor.handle(MonitorEvent::SettingsSaved(Origin::Menu, Ok(()))),
        vec![MonitorAction::UpdateTray, MonitorAction::RedrawPopup]
    );
    assert!(monitor.settings.start_with_windows);
}

#[test]
fn undoes_a_refused_turn_from_the_menu() {
    let mut monitor = monitor(true);
    monitor.handle(MonitorEvent::AutoStartItemTurned(false));
    assert_eq!(
        monitor.handle(MonitorEvent::AutoStartChanged(Origin::Menu, Err("denied".to_owned()))),
        vec![
            MonitorAction::ShowAutoStartItem(true),
            MonitorAction::UpdateTray,
            MonitorAction::RedrawPopup
        ]
    );
    assert!(monitor.settings.start_with_windows);
    assert_eq!(monitor.state.last_error, Some("denied".to_owned()));
}

#[test]
fn turns_auto_start_in_the_popup() {
    let mut monitor = monitor(true);
    assert_eq!(
        monitor.handle(MonitorEvent::PopupClicked(PopupTarget::AutoStart)),
        vec![MonitorAction::ChangeAutoStart(Origin::Popup, false)]
    );
    assert_eq!(
        monitor.handle(MonitorEvent::AutoStartChanged(Origin::Popup, Ok(()))),
        vec![MonitorAction::SaveSettings(Origin::Popup)]
    );
    assert_eq!(
        monitor.handle(MonitorEvent::SettingsSaved(Origin::Popup, Err("full".to_owned()))),
        vec![MonitorAction::ShowAutoStartItem(false), MonitorAction::RedrawPopup]
    );
    assert!(!monitor.settings.start_with_windows);
    assert_eq!(monitor.state.last_error, Some("full".to_owned()));
}

#[test]
fn undoes_a_refused_turn_in_the_popup() {
    let mut monitor = monitor(false);
    monitor.handle(MonitorEvent::PopupClicked(PopupTarget::AutoStart));
    assert_eq!(
        monitor.handle(MonitorEvent::AutoStartChanged(Origin::Popup, Err("denied".to_owned()))),
        vec![MonitorAction::ShowAutoStartItem(false), MonitorAction::RedrawPopup]
    );
    assert!(!monitor.settings.start_with_windows);
}

#[test]
fn opens_the_popup_once() {
    let mut monitor = monitor(false);
    assert!(!monitor.popup_open);
    assert_eq!(monitor.handle(MonitorEvent::PreviewAsked), vec![MonitorAction::OpenPopup]);
    assert_eq!(monitor.handle(MonitorEvent::PopupOpened(false)), vec![]);
    assert_eq!(monitor.handle(MonitorEvent::PreviewAsked), vec![MonitorAction::OpenPopup]);
    assert_eq!(monitor.handle(MonitorEvent::PopupOpened(true)), vec![]);
    assert_eq!(
        monitor.handle(MonitorEvent::TrayClicked),
        vec![MonitorAction::RaisePopup, MonitorAction::RequestUsage]
    );
    assert_eq!(monitor.handle(MonitorEvent::PopupClosed), vec![MonitorAction::ClosePopup]);
    assert_eq!(
        monitor.handle(MonitorEvent::TrayClicked),
        vec![MonitorAction::OpenPopup, MonitorAction::RequestUsage]
    );
}
