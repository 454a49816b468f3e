//! A monitor for the weekly usage of Codex.
//!
//! The monitor shows what remains of the weekly quota as a gauge in the tray,
//! and in a popup when the next reset is due and what Codex is doing. This
//! crate holds its rules:
//!
//! * [`quota`] turns the usage that Codex reports into what remains;
//!   [`double`] does the arithmetic of that on bit patterns.
//! * [`status`] and [`session`] tell from the process list and the session logs
//!   what Codex is doing.
//! * [`protocol`] leads the exchange with the Codex app server, [`install`]
//!   finds its executable.
//! * [`state`], [`settings`] and [`control`] hold what is shown and set, and
//!   decide what follows an event.
//! * [`popup`], [`icon`], [`color`], [`pixels`] and [`glyphs`] lay out and paint.
//! * [`text`] and [`json`] are the common ground.

pub mod color;
pub mod control;
pub mod double;
pub mod glyphs;
pub mod icon;
pub mod install;
pub mod json;
pub mod pixels;
pub mod popup;
pub mod protocol;
pub mod quota;
pub mod session;
pub mod settings;
pub mod state;
pub mod status;
pub mod text;

pub use crate::quota::{
    parse_weekly_quota, GaugeZone, QuotaError, WeeklyQuota, WEEKLY_WINDOW_MINUTES,
};
pub use crate::status::{classify_monitor_status, MonitorStatus, SessionSignal};
