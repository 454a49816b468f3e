//! The decisions of the event loop.
//!
//! The loop hands in what happened, performs the actions that come back in
//! their order, and hands in how those went that can fail.

use vstd::prelude::*;

use crate::popup::PopupTarget;
use crate::quota::WeeklyQuota;
use crate::settings::AppSettings;
use crate::state::AppState;
use crate::status::MonitorStatus;
use crate::text;

verus! {

/// How the monitor was started.
#[derive(Debug, Clone, Copy, PartialEq, Eq, Structural)]
pub enum LaunchMode {
    /// Prints a diagnosis and ends.
    Diagnose,
    /// Runs in the tray, with the popup open or not.
    Run { preview: bool },
}

/// Whether an argument stands in a list.
pub open spec fn given(arguments: Seq<String>, argument: Seq<char>) -> bool {
    exists|i: int| 0 <= i < arguments.len() && (#[trigger] arguments[i])@ == argument
}

/// How the arguments ask the monitor to run.
pub open spec fn mode_of(arguments: Seq<String>) -> LaunchMode {
    if given(arguments, "--diagnose"@) {
        LaunchMode::Diagnose
    } else {
        LaunchMode::Run { preview: given(arguments, "--preview"@) }
    }
}

fn is_given(arguments: &Vec<String>, argument: &str) -> (answer: bool)
    ensures
        answer == given(arguments@, argument@),
{
    let mut i: usize = 0;
    while i < arguments.len()
        invariant
            i <= arguments.len(),
            forall|j: int| 0 <= j < i ==> (#[trigger] arguments@[j])@ != argument@,
        decreases arguments.len() - i,
    {
        if text::same_text(arguments[i].as_str(), argument) {
            return true;
        }
        i = i + 1;
    }
    false
}

/// Tells from the command line how the monitor is to run: a diagnosis, if one
/// is asked for, and nothing else.
pub fn launch_mode(arguments: &Vec<String>) -> (mode: LaunchMode)
    ensures
        mode == mode_of(arguments@),
{
    if is_given(arguments, "--diagnose") {
        LaunchMode::Diagnose
    } else {
        LaunchMode::Run { preview: is_given(arguments, "--preview") }
    }
}

/// From where the auto-start switch was turned.
#[derive(Debug, Clone, Copy, PartialEq, Eq, Structural)]
pub enum Origin {
    Menu,
    Popup,
}

/// What happened.
#[derive(Debug, PartialEq)]
pub enum MonitorEvent {
    /// The usage was read, or could not be.
    UsageRead(Result<WeeklyQuota, String>),
    /// The watchdog tells what Codex is doing.
    StatusRead(MonitorStatus),
    /// The menu item for auto-start was turned on or off.
    AutoStartItemTurned(bool),
    /// The menu item for a refresh was chosen.
    RefreshChosen,
    /// The menu item to exit was chosen.
    ExitChosen,
    /// The tray icon was clicked with the left button.
    TrayClicked,
    /// The popup is to be open from the start.
    PreviewAsked,
    /// The popup was opened, or could not be.
    PopupOpened(bool),
    /// The popup was clicked.
    PopupClicked(PopupTarget),
    /// The popup was closed.
    PopupClosed,
    /// Auto-start was registered or removed, or could not be.
    AutoStartChanged(Origin, Result<(), String>),
    /// The settings were saved, or could not be.
    SettingsSaved(Origin, Result<(), String>),
}

/// What the loop has to do.
#[derive(Debug, Clone, Copy, PartialEq, Eq, Structural)]
pub enum MonitorAction {
    UpdateTray,
    RedrawPopup,
    /// Opens the popup, and hands in whether that went well.
    OpenPopup,
    /// Brings the open popup to the front.
    RaisePopup,
    ClosePopup,
    RequestUsage,
    Exit,
    /// Registers or removes auto-start, and hands in how that went.
    ChangeAutoStart(Origin, bool),
    /// Saves the settings, and hands in how that went.
    SaveSettings(Origin),
    /// Shows the menu item for auto-start as on or off.
    ShowAutoStartItem(bool),
}

/// What the monitor knows, what the user has set, and whether the popup is
/// open.
#[derive(Debug, PartialEq)]
pub struct Monitor {
    pub state: AppState,
    pub settings: AppSettings,
    pub popup_open: bool,
}

impl Monitor {
    /// The monitor with the error of a failed action.
    pub open spec fn with_error(self, error: String) -> Monitor {
        Monitor { state: AppState { last_error: Some(error), ..self.state }, ..self }
    }

    /// The monitor with auto-start on or off.
    pub open spec fn with_auto_start(self, enabled: bool) -> Monitor {
        Monitor { settings: AppSettings { start_with_windows: enabled }, ..self }
    }

    /// The monitor with the popup open or not.
    pub open spec fn with_popup(self, popup_open: bool) -> Monitor {
        Monitor { popup_open, ..self }
    }

    /// How the popup is shown: it is opened only where it is not open.
    pub open spec fn showing(self) -> MonitorAction {
        if self.popup_open {
            MonitorAction::RaisePopup
        } else {
            MonitorAction::OpenPopup
        }
    }

    /// The monitor after an event.
    pub open spec fn after(self, event: MonitorEvent) -> Monitor {
        match event {
            MonitorEvent::UsageRead(result) => Monitor {
                state: self.state.after_usage(result),
                ..self
            },
            MonitorEvent::StatusRead(status) => Monitor {
                state: AppState { status, ..self.state },
                ..self
            },
            MonitorEvent::AutoStartItemTurned(enabled) => self.with_auto_start(enabled),
            MonitorEvent::PopupClicked(PopupTarget::AutoStart) => self.with_auto_start(
                !self.settings.start_with_windows,
            ),
            MonitorEvent::AutoStartChanged(_, Err(error)) => self.with_auto_start(
                !self.settings.start_with_windows,
            ).with_error(error),
            MonitorEvent::SettingsSaved(_, Err(error)) => self.with_error(error),
            MonitorEvent::PopupOpened(opened) => self.with_popup(opened),
            MonitorEvent::PopupClosed => self.with_popup(false),
            _ => self,
        }
    }

    /// What to do about an event.
    pub open spec fn actions_for(self, event: MonitorEvent) -> Seq<MonitorAction> {
        let enabled = self.after(event).settings.start_with_windows;
        match event {
            MonitorEvent::UsageRead(_) => seq![
                MonitorAction::UpdateTray,
                MonitorAction::RedrawPopup,
            ],
            MonitorEvent::StatusRead(_) => seq![
                MonitorAction::UpdateTray,
                MonitorAction::RedrawPopup,
            ],
            MonitorEvent::AutoStartItemTurned(_) => seq![
                MonitorAction::ChangeAutoStart(Origin::Menu, enabled),
            ],
            MonitorEvent::RefreshChosen => seq![MonitorAction::RequestUsage],
            MonitorEvent::ExitChosen => seq![MonitorAction::Exit],
            MonitorEvent::TrayClicked => seq![self.showing(), MonitorAction::RequestUsage],
            MonitorEvent::PreviewAsked => seq![self.showing()],
            MonitorEvent::PopupOpened(_) => Seq::empty(),
            MonitorEvent::PopupClicked(PopupTarget::Refresh) => seq![MonitorAction::RequestUsage],
            MonitorEvent::PopupClicked(PopupTarget::AutoStart) => seq![
                MonitorAction::ChangeAutoStart(Origin::Popup, enabled),
            ],
            MonitorEvent::PopupClicked(PopupTarget::Nothing) => Seq::empty(),
            MonitorEvent::PopupClosed => seq![MonitorAction::ClosePopup],
            MonitorEvent::AutoStartChanged(origin, Ok(_)) => seq![
                MonitorAction::SaveSettings(origin),
            ],
            MonitorEvent::AutoStartChanged(Origin::Menu, Err(_)) => seq![
                MonitorAction::ShowAutoStartItem(enabled),
                MonitorAction::UpdateTray,
                MonitorAction::RedrawPopup,
            ],
            MonitorEvent::SettingsSaved(Origin::Menu, _) => seq![
                MonitorAction::UpdateTray,
                MonitorAction::RedrawPopup,
            ],
            MonitorEvent::AutoStartChanged(Origin::Popup, Err(_)) => seq![
                MonitorAction::ShowAutoStartItem(enabled),
                MonitorAction::RedrawPopup,
            ],
            MonitorEvent::SettingsSaved(Origin::Popup, _) => seq![
                MonitorAction::ShowAutoStartItem(enabled),
                MonitorAction::RedrawPopup,
            ],
        }
    }

    /// The monitor before anything is known.
    pub fn new(settings: AppSettings) -> (monitor: Self)
        ensures
            monitor.settings == settings,
            !monitor.popup_open,
            monitor.state.remaining_percent == 0,
            monitor.state.status == MonitorStatus::Idle,
            monitor.state.reset_at == None::<i64>,
            crate::json::optional_view(monitor.state.last_error) == Some("Loading weekly usage"@),
    {
        Monitor { state: AppState::new(), settings, popup_open: false }
    }

    fn show(&self) -> (action: MonitorAction)
        ensures
            action == self.showing(),
    {
        if self.popup_open {
            MonitorAction::RaisePopup
        } else {
            MonitorAction::OpenPopup
        }
    }

    /// Takes in an event, and says what to do about it.
    pub fn handle(&mut self, event: MonitorEvent) -> (actions: Vec<MonitorAction>)
        ensures
            *final(self) == old(self).after(event),
            actions@ == old(self).actions_for(event),
    {
        let ghost before = *self;
        let actions: Vec<MonitorAction> = match event {
            MonitorEvent::UsageRead(result) => {
                self.state.apply_usage(result);
                vec![MonitorAction::UpdateTray, MonitorAction::RedrawPopup]
            },
            MonitorEvent::StatusRead(status) => {
                self.state.status = status;
                vec![MonitorAction::UpdateTray, MonitorAction::RedrawPopup]
            },
            MonitorEvent::AutoStartItemTurned(enabled) => {
                self.settings.start_with_windows = enabled;
                vec![MonitorAction::ChangeAutoStart(Origin::Menu, enabled)]
            },
            MonitorEvent::RefreshChosen => vec![MonitorAction::RequestUsage],
            MonitorEvent::ExitChosen => vec![MonitorAction::Exit],
            MonitorEvent::TrayClicked => vec![self.show(), MonitorAction::RequestUsage],
            MonitorEvent::PreviewAsked => vec![self.show()],
            MonitorEvent::PopupOpened(opened) => {
                self.popup_open = opened;
                Vec::new()
            },
            MonitorEvent::PopupClicked(target) => match target {
                PopupTarget::Refresh => vec![MonitorAction::RequestUsage],
                PopupTarget::AutoStart => {
                    let enabled: bool = !self.settings.start_with_windows;
                    self.settings.start_with_windows = enabled;
                    vec![MonitorAction::ChangeAutoStart(Origin::Popup, enabled)]
                },
                PopupTarget::Nothing => Vec::new(),
            },
            MonitorEvent::PopupClosed => {
                self.popup_open = false;
                vec![MonitorAction::ClosePopup]
            },
            MonitorEvent::AutoStartChanged(origin, Ok(_)) => vec![
                MonitorAction::SaveSettings(origin),
            ],
            MonitorEvent::AutoStartChanged(origin, Err(error)) => {
                let enabled: bool = !self.settings.start_with_windows;
                self.settings.start_with_windows = enabled;
                self.state.last_error = Some(error);
                match origin {
                    Origin::Menu => vec![
                        MonitorAction::ShowAutoStartItem(enabled),
                        MonitorAction::UpdateTray,
                        MonitorAction::RedrawPopup,
                    ],
                    Origin::Popup => vec![
                        MonitorAction::ShowAutoStartItem(enabled),
                        MonitorAction::RedrawPopup,
                    ],
                }
            },
            MonitorEvent::SettingsSaved(origin, result) => {
                if let Err(error) = result {
                    self.state.last_error = Some(error);
                }
                match origin {
                    Origin::Menu => vec![MonitorAction::UpdateTray, MonitorAction::RedrawPopup],
                    Origin::Popup => vec![
                        MonitorAction::ShowAutoStartItem(self.settings.start_with_windows),
                        MonitorAction::RedrawPopup,
                    ],
                }
            },
        };
        proof {
            assert(actions@ =~= before.actions_for(event));
        }
        actions
    }
}

/// A turn of the switch in the popup that Windows refuses leaves the settings
/// as they were.
pub proof fn law_refused_turn_in_popup_is_undone(monitor: Monitor, error: String)
    ensures
        monitor.after(MonitorEvent::PopupClicked(PopupTarget::AutoStart)).after(
            MonitorEvent::AutoStartChanged(Origin::Popup, Err(error)),
        ) == monitor.with_error(error),
{
}

/// A turn of the menu item that Windows refuses leaves the settings as they
/// were, and the item is shown accordingly.
pub proof fn law_refused_turn_in_menu_is_undone(monitor: Monitor, error: String)
    ensures
        ({
            let turned = monitor.after(
                MonitorEvent::AutoStartItemTurned(!monitor.settings.start_with_windows),
            );
            let refused = MonitorEvent::AutoStartChanged(Origin::Menu, Err(error));
            &&& turned.after(refused) == monitor.with_error(error)
            &&& turned.actions_for(refused)[0] == MonitorAction::ShowAutoStartItem(
                monitor.settings.start_with_windows,
            )
        }),
{
}

/// The settings are saved only after Windows has taken the change.
pub proof fn law_saved_only_after_change(monitor: Monitor, event: MonitorEvent, origin: Origin)
    ensures
        monitor.actions_for(event).contains(MonitorAction::SaveSettings(origin)) <==> (
        event matches MonitorEvent::AutoStartChanged(changed, Ok(_)) && changed == origin),
{
    let actions = monitor.actions_for(event);
    if let MonitorEvent::AutoStartChanged(changed, Ok(_)) = event {
        assert(actions[0] == MonitorAction::SaveSettings(changed));
    }
}

/// Whatever changes what is shown is followed by a redraw of the popup.
pub proof fn law_changes_are_redrawn(monitor: Monitor, event: MonitorEvent)
    requires
        monitor.after(event).state != monitor.state,
    ensures
        monitor.actions_for(event).contains(MonitorAction::RedrawPopup),
{
    let actions = monitor.actions_for(event);
    assert(actions.last() == MonitorAction::RedrawPopup);
    assert(actions.contains(actions.last()));
}

/// There is one popup at most: it is opened only where none is open, a click on
/// the tray raises the one that is, and it stays open until it is closed.
pub proof fn law_popup_is_opened_once(monitor: Monitor, event: MonitorEvent)
    requires
        monitor.popup_open,
    ensures
        !monitor.actions_for(event).contains(MonitorAction::OpenPopup),
        event is TrayClicked ==> monitor.actions_for(event)[0] == MonitorAction::RaisePopup,
        event !is PopupClosed && event !is PopupOpened ==> monitor.after(event).popup_open,
{
}

/// Whether an action stands just once in a list.
pub open spec fn once(actions: Seq<MonitorAction>, action: MonitorAction) -> bool {
    actions.contains(action) && actions.no_duplicates()
}

/// No event has the same thing done twice.
pub proof fn law_nothing_is_done_twice(monitor: Monitor, event: MonitorEvent)
    ensures
        monitor.actions_for(event).no_duplicates(),
{
}

/// The refresh button, the menu item for a refresh and a click on the tray
/// icon ask for the usage, just once, in every state of the monitor; nothing
/// else does.
pub proof fn law_usage_is_asked_for(monitor: Monitor, event: MonitorEvent)
    ensures
        ({
            let actions = monitor.actions_for(event);
            let asked = event is RefreshChosen || event is TrayClicked || event
                == MonitorEvent::PopupClicked(PopupTarget::Refresh);
            &&& asked ==> once(actions, MonitorAction::RequestUsage)
            &&& !asked ==> !actions.contains(MonitorAction::RequestUsage)
            &&& asked && !(event is TrayClicked) ==> actions.len() == 1
        }),
{
    let actions = monitor.actions_for(event);
    law_nothing_is_done_twice(monitor, event);
    if event is RefreshChosen || event == MonitorEvent::PopupClicked(PopupTarget::Refresh) {
        assert(actions[0] == MonitorAction::RequestUsage);
    }
    if event is TrayClicked {
        assert(actions[1] == MonitorAction::RequestUsage);
    }
}

/// A refresh, once asked for, is asked for whether the popup is open or not.
pub proof fn law_refresh_does_not_depend_on_the_popup(monitor: Monitor, event: MonitorEvent)
    ensures
        monitor.with_popup(true).actions_for(event).contains(MonitorAction::RequestUsage)
            <==> monitor.with_popup(false).actions_for(event).contains(
            MonitorAction::RequestUsage,
        ),
{
    law_usage_is_asked_for(monitor.with_popup(true), event);
    law_usage_is_asked_for(monitor.with_popup(false), event);
}

/// The monitor ends exactly where the user chooses so.
pub proof fn law_exit_is_chosen(monitor: Monitor, event: MonitorEvent)
    ensures
        monitor.actions_for(event).contains(MonitorAction::Exit) <==> event is ExitChosen,
{
    let actions = monitor.actions_for(event);
    if event is ExitChosen {
        assert(actions[0] == MonitorAction::Exit);
    }
}

/// A click on the tray and a preview show the popup: they open it where it is
/// not open, and else raise it. It is closed where the user closes it.
pub proof fn law_popup_is_shown(monitor: Monitor, event: MonitorEvent)
    ensures
        ({
            let actions = monitor.actions_for(event);
            let shown = event is TrayClicked || event is PreviewAsked;
            &&& actions.contains(MonitorAction::OpenPopup) <==> shown && !monitor.popup_open
            &&& actions.contains(MonitorAction::RaisePopup) <==> shown && monitor.popup_open
            &&& actions.contains(MonitorAction::ClosePopup) <==> event is PopupClosed
            &&& shown ==> actions[0] == if monitor.popup_open {
                MonitorAction::RaisePopup
            } else {
                MonitorAction::OpenPopup
            }
        }),
{
    let actions = monitor.actions_for(event);
    if event is TrayClicked || event is PreviewAsked || event is PopupClosed {
        assert(actions.contains(actions[0]));
    }
}

/// The popup counts as open exactly from the time when it was opened to the
/// time when it was closed.
pub proof fn law_popup_stays_as_it_is(monitor: Monitor, event: MonitorEvent)
    ensures
        monitor.after(event).popup_open == match event {
            MonitorEvent::PopupOpened(opened) => opened,
            MonitorEvent::PopupClosed => false,
            _ => monitor.popup_open,
        },
{
}

/// The tray is brought up to date, and the popup drawn anew, after every reading
/// and after every attempt to turn auto-start that has ended; from the popup
/// only the popup is.
pub proof fn law_news_are_shown(monitor: Monitor, event: MonitorEvent)
    ensures
        ({
            let actions = monitor.actions_for(event);
            let read = event is UsageRead || event is StatusRead;
            let refused = event matches MonitorEvent::AutoStartChanged(_, Err(_));
            let saved = event is SettingsSaved;
            let in_menu = (event matches MonitorEvent::AutoStartChanged(Origin::Menu, _)) || (
            event matches MonitorEvent::SettingsSaved(Origin::Menu, _));
            &&& actions.contains(MonitorAction::UpdateTray) <==> read || (in_menu && (refused
                || saved))
            &&& actions.contains(MonitorAction::RedrawPopup) <==> read || refused || saved
            &&& actions.contains(MonitorAction::RedrawPopup) ==> actions.last()
                == MonitorAction::RedrawPopup
        }),
{
    let actions = monitor.actions_for(event);
    if actions.len() > 0 {
        assert(actions.contains(actions.last()));
        assert(actions.contains(actions[0]));
        assert(actions.len() >= 2 ==> actions.contains(actions[1]));
    }
}

/// Auto-start is changed exactly where the menu item was turned, to what it
/// shows, and where the switch in the popup was clicked, to the contrary of what
/// is set.
pub proof fn law_auto_start_is_changed(
    monitor: Monitor,
    event: MonitorEvent,
    origin: Origin,
    enabled: bool,
)
    ensures
        monitor.actions_for(event).contains(MonitorAction::ChangeAutoStart(origin, enabled)) <==> {
            ||| event == MonitorEvent::AutoStartItemTurned(enabled) && origin == Origin::Menu
            ||| event == MonitorEvent::PopupClicked(PopupTarget::AutoStart) && origin
                == Origin::Popup && enabled == !monitor.settings.start_with_windows
        },
{
    let actions = monitor.actions_for(event);
    if actions.len() > 0 {
        assert(actions.contains(actions[0]));
    }
}

/// The menu item is set to what is in force: after every attempt in the popup,
/// and after one in the menu that was refused.
pub proof fn law_menu_item_shows_what_is_set(monitor: Monitor, event: MonitorEvent, enabled: bool)
    ensures
        monitor.actions_for(event).contains(MonitorAction::ShowAutoStartItem(enabled)) <==> {
            &&& (event matches MonitorEvent::AutoStartChanged(_, Err(_))) || (
            event matches MonitorEvent::SettingsSaved(Origin::Popup, _))
            &&& enabled == monitor.after(event).settings.start_with_windows
        },
{
    let actions = monitor.actions_for(event);
    if actions.len() > 0 {
        assert(actions.contains(actions[0]));
    }
}

/// The settings follow the menu item, turn with a click on the switch, turn
/// back where Windows refuses, and else stay.
pub proof fn law_settings_follow_the_user(monitor: Monitor, event: MonitorEvent)
    ensures
        ({
            let before = monitor.settings.start_with_windows;
            let after = monitor.after(event).settings.start_with_windows;
            let turned = event == MonitorEvent::PopupClicked(PopupTarget::AutoStart) || (
            event matches MonitorEvent::AutoStartChanged(_, Err(_)));
            &&& event matches MonitorEvent::AutoStartItemTurned(enabled) ==> after == enabled
            &&& turned ==> after == !before
            &&& !turned && !(event is AutoStartItemTurned) ==> after == before
        }),
{
}

/// A reading of the usage shows its percentage and its reset and clears the
/// error, or shows its error and leaves the percentage and the reset; a reading
/// of the status shows that status; a failed action shows its error. Nothing
/// else that is shown changes.
pub proof fn law_shown_state_follows(monitor: Monitor, event: MonitorEvent)
    ensures
        ({
            let before = monitor.state;
            let after = monitor.after(event).state;
            &&& after.remaining_percent == match event {
                MonitorEvent::UsageRead(Ok(quota)) => quota.remaining_percent,
                _ => before.remaining_percent,
            }
            &&& after.reset_at == match event {
                MonitorEvent::UsageRead(Ok(quota)) => quota.resets_at_unix_seconds,
                _ => before.reset_at,
            }
            &&& after.status == match event {
                MonitorEvent::UsageRead(Ok(_)) => MonitorStatus::Idle,
                MonitorEvent::UsageRead(Err(_)) => MonitorStatus::Offline,
                MonitorEvent::StatusRead(status) => status,
                _ => before.status,
            }
            &&& after.last_error == match event {
                MonitorEvent::UsageRead(Ok(_)) => None,
                MonitorEvent::UsageRead(Err(error)) => Some(error),
                MonitorEvent::AutoStartChanged(_, Err(error)) => Some(error),
                MonitorEvent::SettingsSaved(_, Err(error)) => Some(error),
                _ => before.last_error,
            }
        }),
{
}

/// An argument is given exactly where it is among the arguments, letter for
/// letter.
pub proof fn law_argument_is_given(arguments: Seq<String>, argument: Seq<char>)
    ensures
        given(arguments, argument) <==> text::views(arguments).contains(argument),
{
    let words = text::views(arguments);
    if given(arguments, argument) {
        let i = choose|i: int| 0 <= i < arguments.len() && (#[trigger] arguments[i])@ == argument;
        assert(words[i] == argument);
    }
    if words.contains(argument) {
        let i = choose|i: int| 0 <= i < words.len() && words[i] == argument;
        assert(arguments[i]@ == argument);
    }
}

/// The monitor prints a diagnosis exactly where one is asked for; else it runs,
/// with the popup open exactly where a preview is asked for.
pub proof fn law_arguments_decide(arguments: Seq<String>)
    ensures
        ({
            let words = text::views(arguments);
            let mode = mode_of(arguments);
            &&& mode is Diagnose <==> words.contains("--diagnose"@)
            &&& mode == (LaunchMode::Run { preview: true }) <==> !words.contains("--diagnose"@)
                && words.contains("--preview"@)
            &&& mode == (LaunchMode::Run { preview: false }) <==> !words.contains("--diagnose"@)
                && !words.contains("--preview"@)
        }),
{
    law_argument_is_given(arguments, "--diagnose"@);
    law_argument_is_given(arguments, "--preview"@);
}

} // verus!
