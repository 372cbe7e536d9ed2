//! What the daemon is told to do: its timeouts, commands and options.

use vstd::prelude::*;

use crate::text::{copy_text, join, opt_text, same_text};

verus! {

/// What is done about idle timeouts while a window is fullscreen.
#[derive(Clone, Copy, Debug, PartialEq, Eq, Structural)]
pub enum FullscreenPolicy {
    /// Idle commands are not run.
    Suppress,
    /// Fullscreen windows make no difference.
    Ignore,
}

impl Default for FullscreenPolicy {
    fn default() -> (r: Self)
        ensures
            r == FullscreenPolicy::Suppress,
    {
        FullscreenPolicy::Suppress
    }
}

/// A timeout, the commands that belong to it, and what has become of it.
///
/// Milliseconds below zero mean that the timeout never fires. The notification is the
/// handle of the compositor's idle notification, where there is one.
pub struct TimeoutCmd {
    pub timeout_ms: i32,
    pub registered_timeout_ms: i32,
    pub idle_cmd: Option<String>,
    pub resume_cmd: Option<String>,
    pub resume_pending: bool,
    pub suppressed_by_fullscreen: bool,
    pub notification: Option<usize>,
}

/// What a [`TimeoutCmd`] holds.
#[verifier::ext_equal]
pub struct TimeoutModel {
    pub timeout_ms: int,
    pub registered_timeout_ms: int,
    pub idle_cmd: Option<Seq<char>>,
    pub resume_cmd: Option<Seq<char>>,
    pub resume_pending: bool,
    pub suppressed_by_fullscreen: bool,
    pub notification: Option<usize>,
}

impl View for TimeoutCmd {
    type V = TimeoutModel;

    open spec fn view(&self) -> TimeoutModel {
        TimeoutModel {
            timeout_ms: self.timeout_ms as int,
            registered_timeout_ms: self.registered_timeout_ms as int,
            idle_cmd: opt_text(self.idle_cmd),
            resume_cmd: opt_text(self.resume_cmd),
            resume_pending: self.resume_pending,
            suppressed_by_fullscreen: self.suppressed_by_fullscreen,
            notification: self.notification,
        }
    }
}

/// A timeout with these settings that nothing has happened to yet.
pub open spec fn fresh_timeout(
    timeout_ms: int,
    idle_cmd: Option<Seq<char>>,
    resume_cmd: Option<Seq<char>>,
) -> TimeoutModel {
    TimeoutModel {
        timeout_ms,
        registered_timeout_ms: -1,
        idle_cmd,
        resume_cmd,
        resume_pending: false,
        suppressed_by_fullscreen: false,
        notification: None,
    }
}

impl Default for TimeoutCmd {
    fn default() -> (r: Self)
        ensures
            r@ == fresh_timeout(-1, None, None),
    {
        TimeoutCmd {
            timeout_ms: -1,
            registered_timeout_ms: -1,
            idle_cmd: None,
            resume_cmd: None,
            resume_pending: false,
            suppressed_by_fullscreen: false,
            notification: None,
        }
    }
}

/// What a list of timeouts holds.
pub open spec fn timeout_models(list: Seq<TimeoutCmd>) -> Seq<TimeoutModel> {
    list.map_values(|t: TimeoutCmd| t@)
}

/// The settings that the command line and the config file make up together.
pub struct Config {
    /// The help text was asked for, so nothing else counts.
    pub help: bool,
    pub wait: bool,
    pub debug: bool,
    pub no_config: bool,
    pub dry_run: bool,
    pub print_events: bool,
    pub validate_config: bool,
    pub fullscreen_policy: FullscreenPolicy,
    pub seat_name: Option<String>,
    pub config_path: Option<String>,
    pub timeouts: Vec<TimeoutCmd>,
    pub before_sleep_cmd: Option<String>,
    pub after_resume_cmd: Option<String>,
    pub lock_cmd: Option<String>,
    pub unlock_cmd: Option<String>,
}

/// What a [`Config`] holds.
#[verifier::ext_equal]
pub struct ConfigModel {
    pub help: bool,
    pub wait: bool,
    pub debug: bool,
    pub no_config: bool,
    pub dry_run: bool,
    pub print_events: bool,
    pub validate_config: bool,
    pub fullscreen_policy: FullscreenPolicy,
    pub seat_name: Option<Seq<char>>,
    pub config_path: Option<Seq<char>>,
    pub timeouts: Seq<TimeoutModel>,
    pub before_sleep_cmd: Option<Seq<char>>,
    pub after_resume_cmd: Option<Seq<char>>,
    pub lock_cmd: Option<Seq<char>>,
    pub unlock_cmd: Option<Seq<char>>,
}

impl View for Config {
    type V = ConfigModel;

    open spec fn view(&self) -> ConfigModel {
        ConfigModel {
            help: self.help,
            wait: self.wait,
            debug: self.debug,
            no_config: self.no_config,
            dry_run: self.dry_run,
            print_events: self.print_events,
            validate_config: self.validate_config,
            fullscreen_policy: self.fullscreen_policy,
            seat_name: opt_text(self.seat_name),
            config_path: opt_text(self.config_path),
            timeouts: timeout_models(self.timeouts@),
            before_sleep_cmd: opt_text(self.before_sleep_cmd),
            after_resume_cmd: opt_text(self.after_resume_cmd),
            lock_cmd: opt_text(self.lock_cmd),
            unlock_cmd: opt_text(self.unlock_cmd),
        }
    }
}

/// The settings where nothing was set.
pub open spec fn empty_config() -> ConfigModel {
    ConfigModel {
        help: false,
        wait: false,
        debug: false,
        no_config: false,
        dry_run: false,
        print_events: false,
        validate_config: false,
        fullscreen_policy: FullscreenPolicy::Suppress,
        seat_name: None,
        config_path: None,
        timeouts: seq![],
        before_sleep_cmd: None,
        after_resume_cmd: None,
        lock_cmd: None,
        unlock_cmd: None,
    }
}

impl Default for Config {
    fn default() -> (r: Self)
        ensures
            r@ == empty_config(),
    {
        let r = Config {
            help: false,
            wait: false,
            debug: false,
            no_config: false,
            dry_run: false,
            print_events: false,
            validate_config: false,
            fullscreen_policy: FullscreenPolicy::default(),
            seat_name: None,
            config_path: None,
            timeouts: Vec::new(),
            before_sleep_cmd: None,
            after_resume_cmd: None,
            lock_cmd: None,
            unlock_cmd: None,
        };
        assert(r@ =~= empty_config());
        r
    }
}

/// Whether there is anything to wait for: a timeout or a command for some event.
pub open spec fn wants_events(config: ConfigModel) -> bool {
    ||| config.timeouts.len() > 0
    ||| config.before_sleep_cmd is Some
    ||| config.after_resume_cmd is Some
    ||| config.lock_cmd is Some
    ||| config.unlock_cmd is Some
}

/// Whether `config` names anything to wait for.
pub fn has_events(config: &Config) -> (r: bool)
    ensures
        r == wants_events(config@),
{
    !config.timeouts.is_empty() || config.before_sleep_cmd.is_some()
        || config.after_resume_cmd.is_some() || config.lock_cmd.is_some()
        || config.unlock_cmd.is_some()
}

/// The policy that goes by `name`.
pub open spec fn policy_named(name: Seq<char>) -> Option<FullscreenPolicy> {
    if name == "suppress"@ {
        Some(FullscreenPolicy::Suppress)
    } else if name == "ignore"@ {
        Some(FullscreenPolicy::Ignore)
    } else {
        None
    }
}

/// The message about a policy that does not exist.
pub open spec fn bad_policy(name: Seq<char>) -> Seq<char> {
    "invalid fullscreen policy '"@ + name + "', expected suppress or ignore"@
}

/// Reads the name of a fullscreen policy.
pub fn parse_fullscreen_policy(value: &str) -> (r: Result<FullscreenPolicy, String>)
    ensures
        match r {
            Ok(policy) => policy_named(value@) == Some(policy),
            Err(message) => policy_named(value@) is None && message@ == bad_policy(value@),
        },
{
    let name = value.to_string();
    if same_text(&name, "suppress") {
        Ok(FullscreenPolicy::Suppress)
    } else if same_text(&name, "ignore") {
        Ok(FullscreenPolicy::Ignore)
    } else {
        let mut message = join("invalid fullscreen policy '", value);
        message.append("', expected suppress or ignore");
        Err(message)
    }
}

/// The name of a fullscreen policy.
pub open spec fn policy_name(policy: FullscreenPolicy) -> Seq<char> {
    match policy {
        FullscreenPolicy::Suppress => "suppress"@,
        FullscreenPolicy::Ignore => "ignore"@,
    }
}

/// The name of a fullscreen policy.
pub fn fullscreen_policy_name(policy: FullscreenPolicy) -> (r: &'static str)
    ensures
        r@ == policy_name(policy),
{
    match policy {
        FullscreenPolicy::Suppress => "suppress",
        FullscreenPolicy::Ignore => "ignore",
    }
}

/// A policy is read back from its own name, and only from that.
pub proof fn law_policy_name_is_read_back(policy: FullscreenPolicy, name: Seq<char>)
    ensures
        policy_named(name) == Some(policy) <==> name == policy_name(policy),
{
    reveal_strlit("suppress");
    reveal_strlit("ignore");
    assert("suppress"@.len() != "ignore"@.len());
}

/// The settings of `config` that a session with the compositor starts from: its timeouts
/// as if nothing had happened to them yet, its commands, and how they are run.
pub open spec fn session_of(config: ConfigModel) -> ConfigModel {
    ConfigModel {
        timeouts: config.timeouts.map_values(
            |t: TimeoutModel| fresh_timeout(t.timeout_ms, t.idle_cmd, t.resume_cmd),
        ),
        wait: config.wait,
        debug: config.debug,
        fullscreen_policy: config.fullscreen_policy,
        before_sleep_cmd: config.before_sleep_cmd,
        after_resume_cmd: config.after_resume_cmd,
        lock_cmd: config.lock_cmd,
        unlock_cmd: config.unlock_cmd,
        ..empty_config()
    }
}

impl Config {
    /// A copy of the settings that a session with the compositor starts from.
    pub fn session(&self) -> (r: Config)
        ensures
            r@ == session_of(self@),
    {
        let mut timeouts: Vec<TimeoutCmd> = Vec::new();
        let mut i: usize = 0;
        while i < self.timeouts.len()
            invariant
                i <= self.timeouts@.len(),
                timeouts@.len() == i,
                forall|k: int|
                    0 <= k < i ==> (#[trigger] timeouts@[k])@ == fresh_timeout(
                        self.timeouts@[k].timeout_ms as int,
                        opt_text(self.timeouts@[k].idle_cmd),
                        opt_text(self.timeouts@[k].resume_cmd),
                    ),
            decreases self.timeouts@.len() - i,
        {
            let timeout = TimeoutCmd {
                timeout_ms: self.timeouts[i].timeout_ms,
                registered_timeout_ms: -1,
                idle_cmd: copy_text(&self.timeouts[i].idle_cmd),
                resume_cmd: copy_text(&self.timeouts[i].resume_cmd),
                resume_pending: false,
                suppressed_by_fullscreen: false,
                notification: None,
            };
            timeouts.push(timeout);
            i += 1;
        }
        let r = Config {
            help: false,
            wait: self.wait,
            debug: self.debug,
            no_config: false,
            dry_run: false,
            print_events: false,
            validate_config: false,
            fullscreen_policy: self.fullscreen_policy,
            seat_name: None,
            config_path: None,
            timeouts,
            before_sleep_cmd: copy_text(&self.before_sleep_cmd),
            after_resume_cmd: copy_text(&self.after_resume_cmd),
            lock_cmd: copy_text(&self.lock_cmd),
            unlock_cmd: copy_text(&self.unlock_cmd),
        };
        assert(r@.timeouts =~= session_of(self@).timeouts);
        r
    }
}

/// There is something to wait for where there is a timeout, or a command for any event.
pub proof fn law_any_event_is_something_to_wait_for(config: ConfigModel)
    ensures
        !wants_events(config) <==> config.timeouts.len() == 0 && config.before_sleep_cmd is None
            && config.after_resume_cmd is None && config.lock_cmd is None && config.unlock_cmd
            is None,
{
}

/// There are two policies, and these are their names.
pub proof fn law_policies_have_names(name: Seq<char>)
    ensures
        policy_name(FullscreenPolicy::Suppress) == "suppress"@,
        policy_name(FullscreenPolicy::Ignore) == "ignore"@,
        policy_named(name) is None <==> name != "suppress"@ && name != "ignore"@,
{
}

} // verus!
