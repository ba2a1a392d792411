//! The server settings that the terminal reads.

use vstd::prelude::*;

use crate::strings;

verus! {

/// The server settings that the terminal reads.
#[derive(Debug, PartialEq, Eq)]
pub struct ServerConfig {
    /// Where requests are authenticated, if by a callback.
    pub auth_callback_url: Option<String>,
    /// The shared key that requests must carry, if there is one.
    pub cube_api_key: Option<String>,
    /// The proxy in front of the sandboxes.
    pub sandbox_proxy_url: String,
    /// The domain that sandbox hosts are named under.
    pub sandbox_domain: String,
    /// How many terminal sessions a sandbox may have at a time.
    pub terminal_max_sessions_per_sandbox: usize,
    /// How long a session may lie idle, in seconds.
    pub terminal_idle_timeout_secs: u64,
}

/// What a [`ServerConfig`] says.
pub ghost struct ConfigView {
    pub auth_callback_url: Option<Seq<char>>,
    pub cube_api_key: Option<Seq<char>>,
    pub sandbox_proxy_url: Seq<char>,
    pub sandbox_domain: Seq<char>,
    pub terminal_max_sessions_per_sandbox: usize,
    pub terminal_idle_timeout_secs: u64,
}

impl View for ServerConfig {
    type V = ConfigView;

    open spec fn view(&self) -> ConfigView {
        ConfigView {
            auth_callback_url: strings::option_text(self.auth_callback_url),
            cube_api_key: strings::option_text(self.cube_api_key),
            sandbox_proxy_url: self.sandbox_proxy_url@,
            sandbox_domain: self.sandbox_domain@,
            terminal_max_sessions_per_sandbox: self.terminal_max_sessions_per_sandbox,
            terminal_idle_timeout_secs: self.terminal_idle_timeout_secs,
        }
    }
}

impl ConfigView {
    /// The session cap in force: at least one session is always allowed.
    pub open spec fn max_sessions(self) -> usize {
        if self.terminal_max_sessions_per_sandbox == 0 {
            1
        } else {
            self.terminal_max_sessions_per_sandbox
        }
    }

    /// The idle timeout in force, in seconds: at least one.
    pub open spec fn idle_timeout(self) -> u64 {
        if self.terminal_idle_timeout_secs == 0 {
            1
        } else {
            self.terminal_idle_timeout_secs
        }
    }
}

impl ServerConfig {
    /// The session cap in force.
    pub fn max_sessions(&self) -> (max: usize)
        ensures
            max == self@.max_sessions(),
            max >= 1,
    {
        if self.terminal_max_sessions_per_sandbox == 0 {
            1
        } else {
            self.terminal_max_sessions_per_sandbox
        }
    }

    /// The idle timeout in force, in seconds.
    pub fn idle_timeout(&self) -> (secs: u64)
        ensures
            secs == self@.idle_timeout(),
            secs >= 1,
    {
        if self.terminal_idle_timeout_secs == 0 {
            1
        } else {
            self.terminal_idle_timeout_secs
        }
    }
}

/// Settings are in force as they are, but for a zero, which counts as one.
pub proof fn law_settings_in_force(config: ConfigView)
    ensures
        config.terminal_max_sessions_per_sandbox >= 1 ==> config.max_sessions()
            == config.terminal_max_sessions_per_sandbox,
        config.terminal_max_sessions_per_sandbox == 0 ==> config.max_sessions() == 1,
        config.terminal_idle_timeout_secs >= 1 ==> config.idle_timeout()
            == config.terminal_idle_timeout_secs,
        config.terminal_idle_timeout_secs == 0 ==> config.idle_timeout() == 1,
{
}

/// The settings say exactly what they hold.
pub proof fn law_settings_say_what_they_hold(config: ServerConfig)
    ensures
        config.auth_callback_url matches Some(url) ==> config@.auth_callback_url == Some(url@),
        config.auth_callback_url is None ==> config@.auth_callback_url is None,
        config.cube_api_key matches Some(key) ==> config@.cube_api_key == Some(key@),
        config.cube_api_key is None ==> config@.cube_api_key is None,
        config@.sandbox_proxy_url == config.sandbox_proxy_url@,
        config@.sandbox_domain == config.sandbox_domain@,
        config@.terminal_max_sessions_per_sandbox == config.terminal_max_sessions_per_sandbox,
        config@.terminal_idle_timeout_secs == config.terminal_idle_timeout_secs,
{
}

} // verus!
