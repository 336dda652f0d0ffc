//! Application settings: the stored row and the values the running
//! process works with.

use vstd::prelude::*;

verus! {

/// Controls when posts are marked as read.
/// - `OnOpen`: automatically marked read when opened in the reader.
/// - `Manually`: only marked read via the toggle button.
/// - `Disabled`: read state is never updated; all posts appear as read.
#[derive(Clone, Copy, Debug, PartialEq, Eq, Structural)]
pub enum ReadMode {
    OnOpen,
    Manually,
    Disabled,
}

/// The single settings row.
#[derive(Clone, Debug)]
pub struct Settings {
    /// Always `true`: the table holds at most one row.
    pub is_singleton: bool,
    /// Number of posts returned per page when listing.
    pub page_size: i32,
    /// How often feeds are polled for new posts, in seconds.
    pub feed_poll_interval_secs: i32,
    /// Total timeout for a feed HTTP request, in seconds.
    pub http_timeout: i32,
    /// Timeout for establishing the connection to a feed host, in seconds.
    pub http_connect_timeout: i32,
    /// Number of times a failed feed request is retried.
    pub http_retries: i32,
    /// Custom `User-Agent` header; `None` uses the default.
    pub http_user_agent: Option<String>,
    /// When posts get marked as read.
    pub read_mode: ReadMode,
    /// Read posts older than this many days are expired; `None` keeps them.
    pub expire_read_after_days: Option<i32>,
    /// Unread posts older than this many days are expired; `None` keeps them.
    pub expire_unread_after_days: Option<i32>,
}

/// Changes to the settings row; `None` leaves a field as it is, except
/// `http_user_agent`, where `None` clears the custom value.
#[derive(Clone, Debug)]
pub struct SettingsUpdateForm {
    pub page_size: Option<i32>,
    pub feed_poll_interval_secs: Option<i32>,
    pub http_timeout: Option<i32>,
    pub http_connect_timeout: Option<i32>,
    pub http_retries: Option<i32>,
    pub http_user_agent: Option<String>,
    pub read_mode: Option<ReadMode>,
    pub expire_read_after_days: Option<i32>,
    pub expire_unread_after_days: Option<i32>,
}

/// The settings the poller and the handlers read while running; replaced
/// whenever the stored settings change.
#[derive(Clone, Debug)]
pub struct RuntimeSettings {
    pub page_size: i32,
    pub feed_poll_interval_secs: i32,
    pub http_timeout: i32,
    pub http_connect_timeout: i32,
    pub http_retries: i32,
    pub http_user_agent: Option<String>,
    pub expire_read_after_days: Option<i32>,
    pub expire_unread_after_days: Option<i32>,
}

pub open spec fn runtime_spec(s: Settings) -> RuntimeSettings {
    RuntimeSettings {
        page_size: s.page_size,
        feed_poll_interval_secs: s.feed_poll_interval_secs,
        http_timeout: s.http_timeout,
        http_connect_timeout: s.http_connect_timeout,
        http_retries: s.http_retries,
        http_user_agent: s.http_user_agent,
        expire_read_after_days: s.expire_read_after_days,
        expire_unread_after_days: s.expire_unread_after_days,
    }
}

impl RuntimeSettings {
    /// The runtime view of the stored settings.
    pub fn from_settings(s: &Settings) -> (r: RuntimeSettings)
        ensures
            r == runtime_spec(*s),
    {
        RuntimeSettings {
            page_size: s.page_size,
            feed_poll_interval_secs: s.feed_poll_interval_secs,
            http_timeout: s.http_timeout,
            http_connect_timeout: s.http_connect_timeout,
            http_retries: s.http_retries,
            http_user_agent: s.http_user_agent.clone(),
            expire_read_after_days: s.expire_read_after_days,
            expire_unread_after_days: s.expire_unread_after_days,
        }
    }
}

impl<'a> From<&'a Settings> for RuntimeSettings {
    fn from(s: &'a Settings) -> (r: Self) {
        RuntimeSettings::from_settings(s)
    }
}

impl<'a> vstd::std_specs::convert::FromSpecImpl<&'a Settings> for RuntimeSettings {
    open spec fn obeys_from_spec() -> bool {
        true
    }

    open spec fn from_spec(s: &'a Settings) -> Self {
        runtime_spec(*s)
    }
}

} // verus!
