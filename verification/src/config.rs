//! Configuration model, file decoding, validation and redaction.
//!
//! The configuration file lives **next to the executable** (`pppoe.toml`).
//! A service is started with the system directory as its working directory, so
//! relative paths are always meant relative to the executable, never to the
//! current directory.
//!
//! `Config` deliberately does **not** implement `Debug`: the broadband user name
//! and password must never be formatted by accident. Use [`Config::summary`]
//! instead, which masks both of them.

use vstd::prelude::*;

use crate::error::{err, Error};
use crate::link;
use crate::lists;
use crate::logger::{Level, Rotation};
use crate::text;
use crate::utf16;

verus! {

/// Default configuration file name (next to the executable).
pub const DEFAULT_FILE_NAME: &'static str = "pppoe.toml";

/// The `[service]` section.
#[derive(Clone)]
pub struct ServiceConfig {
    /// Service name. Must match the built-in name, which is also used as the
    /// event log source name.
    pub name: String,
    pub display_name: String,
    pub description: String,
}

impl Default for ServiceConfig {
    fn default() -> (c: Self)
        ensures
            c.name@ == "PppoeDialer"@,
            c.display_name@ == "PPPoE Auto Dialer"@,
            c.description@ == "Keeps a PPPoE broadband connection online"@,
    {
        ServiceConfig {
            name: "PppoeDialer".to_owned(),
            display_name: "PPPoE Auto Dialer".to_owned(),
            description: "Keeps a PPPoE broadband connection online".to_owned(),
        }
    }
}

/// The `[dial]` section.
#[derive(Clone)]
pub struct DialConfig {
    /// Phone book entry name. Not a secret: it is logged to make troubleshooting
    /// possible.
    pub entry_name: String,
    /// Broadband account. **Never logged.**
    pub username: String,
    /// Broadband password. **Never logged.**
    pub password: String,
    /// Phone book path. Empty means the default phone book of the account the
    /// process runs as.
    pub pbk_path: String,
    /// Create the phone book entry from the PPPoE template when it is missing.
    ///
    /// Enabled by default: a service has a phone book of its own, which does not
    /// contain the connection created on the desktop.
    pub create_entry_if_missing: bool,
    /// Upper bound for a single dial attempt.
    pub dial_timeout_secs: u64,
    /// Optional dial domain, usually empty for PPPoE.
    pub domain: String,
}

impl Default for DialConfig {
    fn default() -> (c: Self)
        ensures
            c.entry_name@.len() == 0,
            c.username@.len() == 0,
            c.password@.len() == 0,
            c.pbk_path@.len() == 0,
            c.create_entry_if_missing,
            c.dial_timeout_secs == 90,
            c.domain@.len() == 0,
    {
        DialConfig {
            entry_name: String::new(),
            username: String::new(),
            password: String::new(),
            pbk_path: String::new(),
            create_entry_if_missing: true,
            dial_timeout_secs: 90,
            domain: String::new(),
        }
    }
}

/// The `[link_check]` section.
#[derive(Clone)]
pub struct LinkCheckConfig {
    pub enabled: bool,
    /// Empty means "any wired ethernet adapter". Otherwise a case insensitive
    /// substring match against the adapter alias or description.
    pub adapter_name: String,
    /// Interface types taking part in the verdict. Only `ethernet` is supported.
    pub interface_types: Vec<String>,
}

impl Default for LinkCheckConfig {
    fn default() -> (c: Self)
        ensures
            c.enabled,
            c.adapter_name@.len() == 0,
            text::texts(c.interface_types@) == seq!["ethernet"@],
    {
        let mut types: Vec<String> = Vec::new();
        types.push("ethernet".to_owned());
        assert(text::texts(types@) == seq!["ethernet"@]);
        LinkCheckConfig { enabled: true, adapter_name: String::new(), interface_types: types }
    }
}

/// The `[monitor]` section.
#[derive(Clone)]
pub struct MonitorConfig {
    pub reconnect_delay_secs: u64,
    pub max_backoff_secs: u64,
    pub backoff_jitter_secs: u64,
    /// Coalescing window for system notifications.
    pub event_debounce_ms: u64,
    /// Optional safety re-check. `0` (default) means "pure event driven".
    pub safety_recheck_secs: u64,
}

impl Default for MonitorConfig {
    fn default() -> (c: Self)
        ensures
            c.reconnect_delay_secs == 5,
            c.max_backoff_secs == 300,
            c.backoff_jitter_secs == 3,
            c.event_debounce_ms == 500,
            c.safety_recheck_secs == 0,
    {
        MonitorConfig {
            reconnect_delay_secs: 5,
            max_backoff_secs: 300,
            backoff_jitter_secs: 3,
            event_debounce_ms: 500,
            safety_recheck_secs: 0,
        }
    }
}

/// The `[log]` section.
#[derive(Clone)]
pub struct LogConfig {
    /// Log directory, relative to the executable unless absolute.
    pub dir: String,
    pub level: String,
    pub rotation: String,
    pub max_files: usize,
    pub event_log: bool,
}

impl Default for LogConfig {
    fn default() -> (c: Self)
        ensures
            c.dir@ == "logs"@,
            c.level@ == "info"@,
            c.rotation@ == "daily"@,
            c.max_files == 14,
            c.event_log,
    {
        LogConfig {
            dir: "logs".to_owned(),
            level: "info".to_owned(),
            rotation: "daily".to_owned(),
            max_files: 14,
            event_log: true,
        }
    }
}

/// The whole configuration.
#[derive(Clone)]
pub struct Config {
    pub service: ServiceConfig,
    pub dial: DialConfig,
    pub link_check: LinkCheckConfig,
    pub monitor: MonitorConfig,
    pub log: LogConfig,
}

impl Default for Config {
    fn default() -> (c: Self)
        ensures
            call_ensures(ServiceConfig::default, (), c.service),
            call_ensures(DialConfig::default, (), c.dial),
            call_ensures(LinkCheckConfig::default, (), c.link_check),
            call_ensures(MonitorConfig::default, (), c.monitor),
            call_ensures(LogConfig::default, (), c.log),
    {
        Config {
            service: ServiceConfig::default(),
            dial: DialConfig::default(),
            link_check: LinkCheckConfig::default(),
            monitor: MonitorConfig::default(),
            log: LogConfig::default(),
        }
    }
}

/// A configuration together with the file it came from.
pub struct Loaded {
    pub config: Config,
    pub path: String,
}

/// Where a file or a directory is.
#[derive(Debug, Clone)]
pub enum Location {
    /// The path as it stands.
    Given(String),
    /// A path relative to the directory of the executable.
    BesideExe(String),
}

impl Location {
    /// The path, without what it is relative to.
    pub open spec fn path(self) -> Seq<char> {
        match self {
            Location::Given(p) => p@,
            Location::BesideExe(p) => p@,
        }
    }
}

/// Name of the one supported interface type.
pub open spec fn is_supported(name: Seq<char>) -> bool {
    text::ascii_lower(text::trimmed(name)) == "ethernet"@
}

/// The first interface type name that is not supported, trimmed and in lower
/// case.
pub open spec fn unsupported(names: Seq<Seq<char>>) -> Option<Seq<char>> {
    match lists::first_where(names, |n: Seq<char>| !is_supported(n)) {
        Some(n) => Some(text::ascii_lower(text::trimmed(n))),
        None => None,
    }
}

/// `true` when a path separator stands in the text.
pub open spec fn has_separator(s: Seq<char>) -> bool {
    s.contains('\\') || s.contains('/')
}

/// Neither a path separator nor a colon stands in the text.
pub open spec fn is_plain(s: Seq<char>) -> bool {
    !has_separator(s) && !s.contains(':')
}

impl Config {
    /// What [`Config::validate`] has to say against the configuration; the first
    /// problem in the order of the checks counts.
    pub open spec fn complaint(self) -> Option<Seq<char>> {
        if text::is_blank(self.dial.entry_name@) {
            Some("dial.entry_name must not be empty"@)
        } else if text::is_blank(self.dial.username@) {
            Some("dial.username must not be empty"@)
        } else if self.dial.password@.len() == 0 {
            Some("dial.password must not be empty"@)
        } else if text::is_blank(self.service.name@) || has_separator(self.service.name@) {
            Some("service.name must be a plain name without path separators"@)
        } else if Level::of_name(self.log.level@) is None {
            Some("log.level must be one of: error, warn, info, debug, trace"@)
        } else if Rotation::of_name(self.log.rotation@) is None {
            Some("log.rotation must be either 'daily' or 'never'"@)
        } else if self.monitor.reconnect_delay_secs < 1 {
            Some("monitor.reconnect_delay_secs must be at least 1"@)
        } else if self.monitor.max_backoff_secs < self.monitor.reconnect_delay_secs {
            Some("monitor.max_backoff_secs must be >= monitor.reconnect_delay_secs"@)
        } else if self.monitor.event_debounce_ms > 60_000 {
            Some("monitor.event_debounce_ms must not exceed 60000"@)
        } else if 0 < self.monitor.safety_recheck_secs < 30 {
            Some("monitor.safety_recheck_secs must be 0 (disabled) or at least 30"@)
        } else if self.dial.dial_timeout_secs < 10 {
            Some("dial.dial_timeout_secs must be at least 10"@)
        } else if self.link_check.interface_types@.len() == 0 {
            Some("link_check.interface_types must not be empty"@)
        } else if unsupported(text::texts(self.link_check.interface_types@)) is Some {
            Some("link_check.interface_types contains an unsupported value (supported: ethernet)"@)
        } else {
            None
        }
    }

    /// The configuration can be run with.
    pub open spec fn is_valid(self) -> bool {
        &&& !text::is_blank(self.dial.entry_name@)
        &&& !text::is_blank(self.dial.username@)
        &&& self.dial.password@.len() > 0
        &&& self.dial.dial_timeout_secs >= 10
        &&& !text::is_blank(self.service.name@)
        &&& !has_separator(self.service.name@)
        &&& Level::of_name(self.log.level@) is Some
        &&& Rotation::of_name(self.log.rotation@) is Some
        &&& 1 <= self.monitor.reconnect_delay_secs <= self.monitor.max_backoff_secs
        &&& self.monitor.event_debounce_ms <= 60_000
        &&& self.monitor.safety_recheck_secs == 0 || self.monitor.safety_recheck_secs >= 30
        &&& self.link_check.interface_types@.len() > 0
        &&& unsupported(text::texts(self.link_check.interface_types@)) is None
    }

    /// Resolves the configuration file path: the explicit path when given,
    /// otherwise `pppoe.toml` next to the executable.
    pub fn resolve_path(explicit: Option<&str>) -> (out: Location)
        ensures
            match explicit {
                Some(path) => out matches Location::Given(p) && p@ == path@,
                None => out matches Location::BesideExe(p) && p@ == DEFAULT_FILE_NAME@,
            },
    {
        match explicit {
            Some(path) => Location::Given(path.to_owned()),
            None => Location::BesideExe(DEFAULT_FILE_NAME.to_owned()),
        }
    }

    /// Rejects obviously broken configurations before the service starts.
    ///
    /// Error messages only mention *field names*; values are never echoed so a
    /// typo cannot leak the account or password into the log.
    pub fn validate(&self) -> (out: Result<(), Error>)
        ensures
            match self.complaint() {
                Some(message) => out matches Err(e) && e is Message && e.said() == message,
                None => out is Ok,
            },
            out is Ok <==> self.is_valid(),
    {
        if text::blank(self.dial.entry_name.as_str()) {
            return Err(err("dial.entry_name must not be empty"));
        }
        if text::blank(self.dial.username.as_str()) {
            return Err(err("dial.username must not be empty"));
        }
        if self.dial.password.as_str().is_empty() {
            return Err(err("dial.password must not be empty"));
        }
        if text::blank(self.service.name.as_str()) || separated(self.service.name.as_str()) {
            return Err(err("service.name must be a plain name without path separators"));
        }
        if Level::parse(self.log.level.as_str()).is_none() {
            return Err(err("log.level must be one of: error, warn, info, debug, trace"));
        }
        if Rotation::parse(self.log.rotation.as_str()).is_none() {
            return Err(err("log.rotation must be either 'daily' or 'never'"));
        }
        if self.monitor.reconnect_delay_secs < 1 {
            return Err(err("monitor.reconnect_delay_secs must be at least 1"));
        }
        if self.monitor.max_backoff_secs < self.monitor.reconnect_delay_secs {
            return Err(err("monitor.max_backoff_secs must be >= monitor.reconnect_delay_secs"));
        }
        if self.monitor.event_debounce_ms > 60_000 {
            return Err(err("monitor.event_debounce_ms must not exceed 60000"));
        }
        if self.monitor.safety_recheck_secs != 0 && self.monitor.safety_recheck_secs < 30 {
            return Err(err("monitor.safety_recheck_secs must be 0 (disabled) or at least 30"));
        }
        if self.dial.dial_timeout_secs < 10 {
            return Err(err("dial.dial_timeout_secs must be at least 10"));
        }
        if self.link_check.interface_types.len() == 0 {
            return Err(err("link_check.interface_types must not be empty"));
        }
        match self.interface_types() {
            Ok(_) => Ok(()),
            Err(_) => Err(
                err(
                    "link_check.interface_types contains an unsupported value (supported: ethernet)",
                ),
            ),
        }
    }

    /// The configured level, or `Info` when the value names none.
    pub fn level(&self) -> (level: Level)
        ensures
            level == match Level::of_name(self.log.level@) {
                Some(l) => l,
                None => Level::Info,
            },
    {
        match Level::parse(self.log.level.as_str()) {
            Some(l) => l,
            None => Level::Info,
        }
    }

    /// The configured rotation policy, or `Daily` when the value names none.
    pub fn rotation(&self) -> (rotation: Rotation)
        ensures
            rotation == match Rotation::of_name(self.log.rotation@) {
                Some(r) => r,
                None => Rotation::Daily,
            },
    {
        match Rotation::parse(self.log.rotation.as_str()) {
            Some(r) => r,
            None => Rotation::Daily,
        }
    }

    /// Interface type numbers taking part in the cable verdict.
    pub fn interface_types(&self) -> (out: Result<Vec<u32>, Error>)
        ensures
            ({
                let names = text::texts(self.link_check.interface_types@);
                if names.len() == 0 {
                    out matches Err(e) && e is Message && e.said()
                        == "link_check.interface_types must not be empty"@
                } else {
                    match unsupported(names) {
                        Some(other) => out matches Err(e) && e is Message && e.said()
                            == "link_check.interface_types contains unsupported value '"@ + other
                            + "' (supported: ethernet)"@,
                        None => out matches Ok(types) && types@ == Seq::new(
                            names.len(),
                            |i: int| link::IF_TYPE_ETHERNET,
                        ),
                    }
                }
            }),
    {
        let ghost names = text::texts(self.link_check.interface_types@);
        let ghost bad = |n: Seq<char>| !is_supported(n);
        if self.link_check.interface_types.len() == 0 {
            return Err(err("link_check.interface_types must not be empty"));
        }
        let mut out: Vec<u32> = Vec::new();
        let mut i: usize = 0;
        while i < self.link_check.interface_types.len()
            invariant
                i <= self.link_check.interface_types@.len(),
                self.link_check.interface_types@.len() > 0,
                names == text::texts(self.link_check.interface_types@),
                bad == (|n: Seq<char>| !is_supported(n)),
                lists::first_where(names.take(i as int), bad) is None,
                out@ == Seq::new(i as nat, |j: int| link::IF_TYPE_ETHERNET),
            decreases self.link_check.interface_types@.len() - i,
        {
            assert(names.take(i + 1).drop_last() == names.take(i as int));
            let bare = text::trim(self.link_check.interface_types[i].as_str());
            let name = text::to_lower(bare.as_str());
            if text::same(name.as_str(), "ethernet") {
                out.push(link::IF_TYPE_ETHERNET);
            } else {
                proof {
                    lemma_first_stays(names, bad, i + 1);
                }
                let mut message = "link_check.interface_types contains unsupported value '".to_owned();
                message.append(name.as_str());
                message.append("' (supported: ethernet)");
                return Err(Error::Message(message));
            }
            i += 1;
            assert(out@ == Seq::new(i as nat, |j: int| link::IF_TYPE_ETHERNET));
        }
        assert(names.take(names.len() as int) == names);
        Ok(out)
    }

    /// The log directory: the trimmed value as it stands when it is absolute,
    /// otherwise relative to the directory of the executable.
    ///
    /// Which paths are absolute is the platform's business; what is said here is that
    /// a path without separators and without a colon is none. [`locate_log_dir`] says
    /// what becomes of the answer.
    pub fn log_dir(&self) -> (out: Result<Location, Error>)
        ensures
            match out {
                Err(e) => text::is_blank(self.log.dir@) && e is Message && e.said()
                    == "log.dir must not be empty"@,
                Ok(location) => !text::is_blank(self.log.dir@) && location.path()
                    == text::trimmed(self.log.dir@) && (is_plain(text::trimmed(self.log.dir@))
                    ==> location is BesideExe),
            },
    {
        let bare = text::trim(self.log.dir.as_str());
        let absolute = is_absolute(bare.as_str());
        locate_log_dir(self.log.dir.as_str(), absolute)
    }

    /// The summary, given the notation of the interface types.
    pub open spec fn summary_text(self, types: Seq<char>) -> Seq<char> {
        "service={ name:\""@ + self.service.name@ + "\", display:\""@ + self.service.display_name@
            + "\" } dial={ entry:\""@ + self.dial.entry_name@
            + "\", user:\"***\", password:\"***\", pbk:\""@ + self.dial.pbk_path@
            + "\", create_entry:"@ + text::truth(self.dial.create_entry_if_missing) + ", timeout:"@
            + text::decimal(self.dial.dial_timeout_secs as nat) + "s, domain:"@ + (
        if self.dial.domain@.len() == 0 {
            "\"\""@
        } else {
            "\"***\""@
        }) + " } link_check={ enabled:"@ + text::truth(self.link_check.enabled) + ", adapter:\""@
            + self.link_check.adapter_name@ + "\", types:"@ + types + " } monitor={ reconnect:"@
            + text::decimal(self.monitor.reconnect_delay_secs as nat) + "s, max_backoff:"@
            + text::decimal(self.monitor.max_backoff_secs as nat) + "s, jitter:"@ + text::decimal(
            self.monitor.backoff_jitter_secs as nat,
        ) + "s, debounce:"@ + text::decimal(self.monitor.event_debounce_ms as nat)
            + "ms, safety_recheck:"@ + text::decimal(self.monitor.safety_recheck_secs as nat)
            + " } log={ dir:\""@ + self.log.dir@ + "\", level:\""@ + self.log.level@
            + "\", rotation:\""@ + self.log.rotation@ + "\", max_files:"@ + text::decimal(
            self.log.max_files as nat,
        ) + ", event_log:"@ + text::truth(self.log.event_log) + " }"@
    }

    /// The summary, given the notation of the interface types.
    pub fn summary_with(&self, types: &str) -> (out: String)
        ensures
            out@ == self.summary_text(types@),
    {
        let mut s = "service={ name:\"".to_owned();
        s.append(self.service.name.as_str());
        s.append("\", display:\"");
        s.append(self.service.display_name.as_str());
        s.append("\" } dial={ entry:\"");
        s.append(self.dial.entry_name.as_str());
        s.append("\", user:\"***\", password:\"***\", pbk:\"");
        s.append(self.dial.pbk_path.as_str());
        s.append("\", create_entry:");
        s.append(text::flag(self.dial.create_entry_if_missing).as_str());
        s.append(", timeout:");
        s.append(text::number(self.dial.dial_timeout_secs).as_str());
        s.append("s, domain:");
        if self.dial.domain.as_str().is_empty() {
            s.append("\"\"");
        } else {
            s.append("\"***\"");
        }
        s.append(" } link_check={ enabled:");
        s.append(text::flag(self.link_check.enabled).as_str());
        s.append(", adapter:\"");
        s.append(self.link_check.adapter_name.as_str());
        s.append("\", types:");
        s.append(types);
        s.append(" } monitor={ reconnect:");
        s.append(text::number(self.monitor.reconnect_delay_secs).as_str());
        s.append("s, max_backoff:");
        s.append(text::number(self.monitor.max_backoff_secs).as_str());
        s.append("s, jitter:");
        s.append(text::number(self.monitor.backoff_jitter_secs).as_str());
        s.append("s, debounce:");
        s.append(text::number(self.monitor.event_debounce_ms).as_str());
        s.append("ms, safety_recheck:");
        s.append(text::number(self.monitor.safety_recheck_secs).as_str());
        s.append(" } log={ dir:\"");
        s.append(self.log.dir.as_str());
        s.append("\", level:\"");
        s.append(self.log.level.as_str());
        s.append("\", rotation:\"");
        s.append(self.log.rotation.as_str());
        s.append("\", max_files:");
        s.append(text::number(self.log.max_files as u64).as_str());
        s.append(", event_log:");
        s.append(text::flag(self.log.event_log).as_str());
        s.append(" }");
        s
    }

    /// Human readable, credential-free configuration summary.
    pub fn summary(&self) -> (out: String)
        ensures
            out@ == self.summary_text(
                debug_list(text::texts(self.link_check.interface_types@)),
            ),
    {
        let types = quoted_list(&self.link_check.interface_types);
        self.summary_with(types.as_str())
    }

    /// Credentials that the logger must keep out of every sink: the account and
    /// the password.
    pub fn secrets(&self) -> (out: Vec<String>)
        ensures
            text::texts(out@) == seq![self.dial.username@, self.dial.password@],
    {
        let mut out: Vec<String> = Vec::new();
        out.push(self.dial.username.clone());
        out.push(self.dial.password.clone());
        assert(text::texts(out@) == seq![self.dial.username@, self.dial.password@]);
        out
    }
}

proof fn lemma_first_stays(names: Seq<Seq<char>>, p: spec_fn(Seq<char>) -> bool, n: int)
    requires
        0 <= n <= names.len(),
        lists::first_where(names.take(n), p) is Some,
    ensures
        lists::first_where(names, p) == lists::first_where(names.take(n), p),
    decreases names.len() - n,
{
    if n < names.len() {
        assert(names.take(n + 1).drop_last() == names.take(n));
        lemma_first_stays(names, p, n + 1);
    } else {
        assert(names.take(n) == names);
    }
}

fn separated(s: &str) -> (yes: bool)
    ensures
        yes == has_separator(s@),
{
    let chars = text::chars_of(s);
    let mut i: usize = 0;
    while i < chars.len()
        invariant
            i <= chars@.len(),
            chars@ == s@,
            forall|j: int| 0 <= j < i ==> chars@[j] != '\\' && chars@[j] != '/',
        decreases chars@.len() - i,
    {
        if chars[i] == '\\' || chars[i] == '/' {
            assert(s@[i as int] == chars@[i as int]);
            return true;
        }
        i += 1;
    }
    false
}

/// The log directory a `[log] dir` value stands for, given whether the platform
/// takes the trimmed value for an absolute path.
pub fn locate_log_dir(dir: &str, absolute: bool) -> (out: Result<Location, Error>)
    ensures
        if text::is_blank(dir@) {
            out matches Err(e) && e is Message && e.said() == "log.dir must not be empty"@
        } else if absolute {
            out matches Ok(Location::Given(p)) && p@ == text::trimmed(dir@)
        } else {
            out matches Ok(Location::BesideExe(p)) && p@ == text::trimmed(dir@)
        },
{
    if text::blank(dir) {
        return Err(err("log.dir must not be empty"));
    }
    let bare = text::trim(dir);
    if absolute {
        Ok(Location::Given(bare))
    } else {
        Ok(Location::BesideExe(bare))
    }
}

/// `std::path::Path::is_absolute`. An absolute path starts with a root, which takes
/// a path separator or, on some platforms, a colon: a text with neither is not
/// absolute. Which of the other paths are differs between platforms and is not
/// claimed.
#[verifier::external_body]
fn is_absolute(path: &str) -> (yes: bool)
    ensures
        is_plain(path@) ==> !yes,
{
    std::path::Path::new(path).is_absolute()
}

/// Notation of a list of texts as a Rust literal.
pub uninterp spec fn debug_list(list: Seq<Seq<char>>) -> Seq<char>;

/// The `Debug` notation of a list of strings, a function of the texts alone.
/// How characters are escaped in it stays unsaid here.
#[verifier::external_body]
fn quoted_list(list: &Vec<String>) -> (out: String)
    ensures
        out@ == debug_list(text::texts(list@)),
{
    format!("{:?}", list)
}

/// Value that the argument at position `at` gives for `--config`, if any: either
/// `--config=<path>`, or `--config` with the path behind it. An empty or missing
/// path counts as none.
pub open spec fn value_at(args: Seq<Seq<char>>, at: int) -> Option<Seq<char>> {
    if text::begins_with(args[at], "--config="@) {
        let value = args[at].skip("--config="@.len() as int);
        if value.len() > 0 {
            Some(value)
        } else {
            None
        }
    } else if args[at] == "--config"@ && at + 1 < args.len() && args[at + 1].len() > 0 {
        Some(args[at + 1])
    } else {
        None
    }
}

/// The first value given for `--config` at or behind position `from`.
pub open spec fn value_from(args: Seq<Seq<char>>, from: int) -> Option<Seq<char>>
    decreases args.len() - from,
{
    if from >= args.len() {
        None
    } else {
        match value_at(args, from) {
            Some(value) => Some(value),
            None => value_from(args, from + 1),
        }
    }
}

/// Extracts `--config <path>` / `--config=<path>` from a command line.
///
/// Used both by the interactive commands and by the service entry point, so that
/// a service can be pointed at a non default configuration.
pub fn config_arg(args: &[String]) -> (value: Option<String>)
    ensures
        match value_from(text::texts(args@), 0) {
            Some(path) => value matches Some(v) && v@ == path,
            None => value is None,
        },
{
    let ghost all = text::texts(args@);
    let mut index: usize = 0;
    while index < args.len()
        invariant
            index <= args@.len(),
            all == text::texts(args@),
            value_from(all, 0) == value_from(all, index as int),
        decreases args@.len() - index,
    {
        assert(all[index as int] == args@[index as int]@);
        let arg = args[index].as_str();
        match text::after_prefix(arg, "--config=") {
            Some(value) => {
                if !value.as_str().is_empty() {
                    return Some(value);
                }
            },
            None => {
                if text::same(arg, "--config") && index + 1 < args.len() {
                    assert(all[index + 1] == args@[index + 1]@);
                    let next = args[index + 1].as_str();
                    if !next.is_empty() {
                        return Some(next.to_owned());
                    }
                }
            },
        }
        index += 1;
    }
    None
}

/// `true` when the bytes begin with the given mark.
pub open spec fn marked(bytes: Seq<u8>, mark: Seq<u8>) -> bool {
    bytes.len() >= mark.len() && bytes.take(mark.len() as int) == mark
}

/// Byte order mark of a UTF-8 file.
pub open spec fn utf8_mark() -> Seq<u8> {
    seq![0xEFu8, 0xBBu8, 0xBFu8]
}

/// Byte order mark of a UTF-16 file, low byte first.
pub open spec fn little_endian_mark() -> Seq<u8> {
    seq![0xFFu8, 0xFEu8]
}

/// Byte order mark of a UTF-16 file, high byte first.
pub open spec fn big_endian_mark() -> Seq<u8> {
    seq![0xFEu8, 0xFFu8]
}

/// The UTF-16 code units that the bytes hold; an odd byte at the end is dropped.
pub open spec fn units_in(bytes: Seq<u8>, little_endian: bool) -> Seq<u16> {
    Seq::new(
        (bytes.len() / 2) as nat,
        |i: int|
            if little_endian {
                (bytes[2 * i] + 256 * bytes[2 * i + 1]) as u16
            } else {
                (256 * bytes[2 * i] + bytes[2 * i + 1]) as u16
            },
    )
}

/// Bytes of a file without its UTF-8 mark.
pub open spec fn utf8_part(bytes: Seq<u8>) -> Seq<u8> {
    if marked(bytes, utf8_mark()) {
        bytes.skip(3)
    } else {
        bytes
    }
}

/// The text that a configuration file holds; `None` when it is not text.
pub open spec fn text_in(bytes: Seq<u8>) -> Option<Seq<char>> {
    if marked(bytes, little_endian_mark()) {
        Some(utf16::decoded(units_in(bytes.skip(2), true)))
    } else if marked(bytes, big_endian_mark()) {
        Some(utf16::decoded(units_in(bytes.skip(2), false)))
    } else if vstd::utf8::valid_utf8(utf8_part(bytes)) {
        Some(vstd::utf8::decode_utf8(utf8_part(bytes)))
    } else {
        None
    }
}

/// What the standard library says against bytes that are not UTF-8.
pub uninterp spec fn utf8_complaint(bytes: Seq<u8>) -> Seq<char>;

/// `String::from_utf8`: the text whose UTF-8 encoding the bytes are, or the text
/// of the error when they are no valid UTF-8. The wording of the error, a function
/// of the bytes, stays unsaid.
#[verifier::external_body]
fn from_utf8(bytes: Vec<u8>) -> (out: Result<String, String>)
    ensures
        match out {
            Ok(text) => vstd::utf8::valid_utf8(bytes@) && text@ == vstd::utf8::decode_utf8(bytes@),
            Err(message) => !vstd::utf8::valid_utf8(bytes@) && message@ == utf8_complaint(bytes@),
        },
{
    String::from_utf8(bytes).map_err(|e| e.to_string())
}

fn tail(bytes: &[u8], from: usize) -> (out: Vec<u8>)
    requires
        from <= bytes@.len(),
    ensures
        out@ == bytes@.skip(from as int),
{
    let mut out: Vec<u8> = Vec::new();
    let mut i: usize = from;
    while i < bytes.len()
        invariant
            from <= i <= bytes@.len(),
            out@ == bytes@.subrange(from as int, i as int),
        decreases bytes@.len() - i,
    {
        out.push(bytes[i]);
        i += 1;
        assert(out@ == bytes@.subrange(from as int, i as int));
    }
    assert(bytes@.subrange(from as int, bytes@.len() as int) == bytes@.skip(from as int));
    out
}

/// Decodes a configuration file to text.
///
/// Editors on Windows happily save `.toml` files as UTF-8 with BOM or even as
/// UTF-16. Supporting all three avoids the classic "the service dies with a
/// cryptic parse error after the file was edited in Notepad" problem.
pub fn decode(bytes: &[u8]) -> (out: Result<String, Error>)
    ensures
        match text_in(bytes@) {
            Some(text) => out matches Ok(t) && t@ == text,
            None => out matches Err(e) && e is Message && e.said() == "not valid UTF-8: "@
                + utf8_complaint(utf8_part(bytes@)),
        },
{
    let utf8 = bytes.len() >= 3 && bytes[0] == 0xEF && bytes[1] == 0xBB && bytes[2] == 0xBF;
    let little = bytes.len() >= 2 && bytes[0] == 0xFF && bytes[1] == 0xFE;
    let big = bytes.len() >= 2 && bytes[0] == 0xFE && bytes[1] == 0xFF;
    proof {
        lemma_marks(bytes@);
    }
    if little {
        let rest = tail(bytes, 2);
        return Ok(utf16_to_string(rest.as_slice(), true));
    }
    if big {
        let rest = tail(bytes, 2);
        return Ok(utf16_to_string(rest.as_slice(), false));
    }
    let from: usize = if utf8 {
        3
    } else {
        0
    };
    let rest = tail(bytes, from);
    assert(rest@ == utf8_part(bytes@));
    match from_utf8(rest) {
        Ok(text) => Ok(text),
        Err(complaint) => {
            let mut message = "not valid UTF-8: ".to_owned();
            message.append(complaint.as_str());
            Err(Error::Message(message))
        },
    }
}

proof fn lemma_marks(bytes: Seq<u8>)
    ensures
        marked(bytes, utf8_mark()) <==> bytes.len() >= 3 && bytes[0] == 0xEF && bytes[1] == 0xBB
            && bytes[2] == 0xBF,
        marked(bytes, little_endian_mark()) <==> bytes.len() >= 2 && bytes[0] == 0xFF && bytes[1]
            == 0xFE,
        marked(bytes, big_endian_mark()) <==> bytes.len() >= 2 && bytes[0] == 0xFE && bytes[1]
            == 0xFF,
{
    if bytes.len() >= 3 {
        let head = bytes.take(3);
        assert(head[0] == bytes[0] && head[1] == bytes[1] && head[2] == bytes[2]);
        if bytes[0] == 0xEF && bytes[1] == 0xBB && bytes[2] == 0xBF {
            assert(head == utf8_mark());
        }
    }
    if bytes.len() >= 2 {
        let head = bytes.take(2);
        assert(head[0] == bytes[0] && head[1] == bytes[1]);
        if bytes[0] == 0xFF && bytes[1] == 0xFE {
            assert(head == little_endian_mark());
        }
        if bytes[0] == 0xFE && bytes[1] == 0xFF {
            assert(head == big_endian_mark());
        }
    }
}

/// Decodes UTF-16 bytes, lossily; an odd byte at the end is dropped.
pub fn utf16_to_string(bytes: &[u8], little_endian: bool) -> (text: String)
    ensures
        text@ == utf16::decoded(units_in(bytes@, little_endian)),
{
    let count: usize = bytes.len() / 2;
    let mut units: Vec<u16> = Vec::new();
    let mut i: usize = 0;
    while i < count
        invariant
            i <= count,
            count == bytes@.len() / 2,
            2 * count <= bytes.len(),
            units@ == units_in(bytes@, little_endian).take(i as int),
        decreases count - i,
    {
        let first = bytes[2 * i] as u16;
        let second = bytes[2 * i + 1] as u16;
        if little_endian {
            units.push(first + 256 * second);
        } else {
            units.push(256 * first + second);
        }
        i += 1;
        assert(units@ == units_in(bytes@, little_endian).take(i as int));
    }
    assert(units@ == units_in(bytes@, little_endian));
    utf16::decode_lossy(units.as_slice())
}

/// Text of the configuration file at `path`, given what reading it came to: its
/// bytes, or what the system said.
pub fn file_text(path: &str, read: &Result<Vec<u8>, String>) -> (out: Result<String, Error>)
    ensures
        match *read {
            Err(reason) => out matches Err(e) && e is Message && e.said()
                == "cannot read configuration file "@ + path@ + ": "@ + reason@,
            Ok(bytes) => match text_in(bytes@) {
                Some(text) => out matches Ok(t) && t@ == text,
                None => out matches Err(e) && e is Message && e.said() == "cannot decode "@ + path@
                    + ": "@ + ("not valid UTF-8: "@ + utf8_complaint(utf8_part(bytes@))),
            },
        },
{
    match read {
        Err(reason) => {
            let mut message = "cannot read configuration file ".to_owned();
            message.append(path);
            message.append(": ");
            message.append(reason.as_str());
            Err(Error::Message(message))
        },
        Ok(bytes) => match decode(bytes.as_slice()) {
            Ok(text) => Ok(text),
            Err(e) => {
                let mut message = "cannot decode ".to_owned();
                message.append(path);
                message.append(": ");
                message.append(e.message().as_str());
                Err(Error::Message(message))
            },
        },
    }
}

/// Takes over what parsing the file at `path` came to: a configuration, which is
/// validated, or what the parser said.
pub fn accept(path: String, parsed: Result<Config, String>) -> (out: Result<Loaded, Error>)
    ensures
        match parsed {
            Err(reason) => out matches Err(e) && e is Message && e.said()
                == "invalid configuration in "@ + path@ + ": "@ + reason@,
            Ok(config) => match config.complaint() {
                Some(complaint) => out matches Err(e) && e is Message && e.said() == complaint,
                None => out == Ok::<Loaded, Error>((Loaded { config, path })),
            },
        },
        out matches Ok(loaded) ==> loaded.config.is_valid(),
{
    match parsed {
        Err(reason) => {
            let mut message = "invalid configuration in ".to_owned();
            message.append(path.as_str());
            message.append(": ");
            message.append(reason.as_str());
            Err(Error::Message(message))
        },
        Ok(config) => match config.validate() {
            Err(e) => Err(e),
            Ok(_) => Ok(Loaded { config, path }),
        },
    }
}

/// Everything that [`Config::validate`] can say. None of it depends on a value of
/// the configuration.
pub open spec fn complaints() -> Seq<Seq<char>> {
    seq![
        "dial.entry_name must not be empty"@,
        "dial.username must not be empty"@,
        "dial.password must not be empty"@,
        "service.name must be a plain name without path separators"@,
        "log.level must be one of: error, warn, info, debug, trace"@,
        "log.rotation must be either 'daily' or 'never'"@,
        "monitor.reconnect_delay_secs must be at least 1"@,
        "monitor.max_backoff_secs must be >= monitor.reconnect_delay_secs"@,
        "monitor.event_debounce_ms must not exceed 60000"@,
        "monitor.safety_recheck_secs must be 0 (disabled) or at least 30"@,
        "dial.dial_timeout_secs must be at least 10"@,
        "link_check.interface_types must not be empty"@,
        "link_check.interface_types contains an unsupported value (supported: ethernet)"@,
    ]
}

/// A complaint about a configuration is one of a fixed list of messages, so no
/// value of the configuration can stand in it.
pub proof fn complaints_never_echo_values(config: Config)
    ensures
        config.complaint() matches Some(message) ==> complaints().contains(message),
{
    let all = complaints();
    assert(forall|i: int| 0 <= i < all.len() ==> all.contains(#[trigger] all[i]));
    assert(all[0] == "dial.entry_name must not be empty"@);
    assert(all[1] == "dial.username must not be empty"@);
    assert(all[2] == "dial.password must not be empty"@);
    assert(all[3] == "service.name must be a plain name without path separators"@);
    assert(all[4] == "log.level must be one of: error, warn, info, debug, trace"@);
    assert(all[5] == "log.rotation must be either 'daily' or 'never'"@);
    assert(all[6] == "monitor.reconnect_delay_secs must be at least 1"@);
    assert(all[7] == "monitor.max_backoff_secs must be >= monitor.reconnect_delay_secs"@);
    assert(all[8] == "monitor.event_debounce_ms must not exceed 60000"@);
    assert(all[9] == "monitor.safety_recheck_secs must be 0 (disabled) or at least 30"@);
    assert(all[10] == "dial.dial_timeout_secs must be at least 10"@);
    assert(all[11] == "link_check.interface_types must not be empty"@);
    assert(all[12]
        == "link_check.interface_types contains an unsupported value (supported: ethernet)"@);
}

/// Two configurations that differ in the account and the password alone have the
/// same summary, and of the domain the summary shows only whether there is one:
/// no credential can be read off it.
pub proof fn the_summary_tells_no_credentials(a: Config, b: Config, types: Seq<char>)
    requires
        a.service == b.service,
        a.link_check == b.link_check,
        a.monitor == b.monitor,
        a.log == b.log,
        a.dial.entry_name == b.dial.entry_name,
        a.dial.pbk_path == b.dial.pbk_path,
        a.dial.create_entry_if_missing == b.dial.create_entry_if_missing,
        a.dial.dial_timeout_secs == b.dial.dial_timeout_secs,
        a.dial.domain@.len() == 0 <==> b.dial.domain@.len() == 0,
    ensures
        a.summary_text(types) == b.summary_text(types),
{
}

/// Bytes of UTF-16 code units.
pub open spec fn bytes_of(units: Seq<u16>, little_endian: bool) -> Seq<u8> {
    Seq::new(
        (2 * units.len()) as nat,
        |i: int|
            if (i % 2 == 0) == little_endian {
                (units[i / 2] % 256) as u8
            } else {
                (units[i / 2] / 256) as u8
            },
    )
}

proof fn lemma_units_in(units: Seq<u16>, little_endian: bool)
    ensures
        units_in(bytes_of(units, little_endian), little_endian) == units,
{
    let bytes = bytes_of(units, little_endian);
    let found = units_in(bytes, little_endian);
    assert(found.len() == units.len());
    assert forall|i: int| 0 <= i < units.len() implies found[i] == units[i] by {
        let unit: u16 = units[i];
        assert((2 * i) / 2 == i && (2 * i) % 2 == 0);
        assert((2 * i + 1) / 2 == i && (2 * i + 1) % 2 == 1);
        lemma_halves(unit);
    }
    assert(found == units);
}

proof fn lemma_halves(unit: u16)
    ensures
        ((unit % 256) as u8) + 256 * ((unit / 256) as u8) == unit,
        0 <= unit <= 0xFFFF,
{
}

/// The same text reads the same from a file in any of the supported encodings:
/// UTF-8 with its mark, UTF-16 in either byte order, and plain UTF-8, unless the
/// text itself begins with the mark character.
pub proof fn every_encoding_reads_the_same(s: Seq<char>)
    ensures
        text_in(utf8_mark() + vstd::utf8::encode_utf8(s)) == Some(s),
        text_in(little_endian_mark() + bytes_of(utf16::encoded(s), true)) == Some(s),
        text_in(big_endian_mark() + bytes_of(utf16::encoded(s), false)) == Some(s),
        s.len() == 0 || s[0] != '\u{FEFF}' ==> text_in(vstd::utf8::encode_utf8(s)) == Some(s),
{
    let plain = vstd::utf8::encode_utf8(s);
    vstd::utf8::encode_utf8_valid_utf8(s);
    vstd::utf8::encode_utf8_decode_utf8(s);
    utf16::decoding_undoes_encoding(s);
    let units = utf16::encoded(s);

    let with_mark = utf8_mark() + plain;
    lemma_marks(with_mark);
    assert(with_mark.skip(3) == plain);

    let little = little_endian_mark() + bytes_of(units, true);
    lemma_marks(little);
    assert(little.skip(2) == bytes_of(units, true));
    lemma_units_in(units, true);

    let big = big_endian_mark() + bytes_of(units, false);
    lemma_marks(big);
    assert(big.skip(2) == bytes_of(units, false));
    lemma_units_in(units, false);

    lemma_marks(plain);
    if s.len() > 0 && s[0] != '\u{FEFF}' {
        vstd::utf8::encode_utf8_first_scalar(s);
        let first: char = s[0];
        if plain.len() >= 3 && plain[0] == 0xEF && plain[1] == 0xBB && plain[2] == 0xBF {
            assert((((0xEFu8 & 0x0F) as u32) << 12u32) | (((0xBBu8 & 0x3f) as u32) << 6u32) | ((
            0xBFu8 & 0x3f) as u32) == 0xFEFFu32) by (bit_vector);
            assert(first as u32 == 0xFEFF);
            assert(first == '\u{FEFF}');
        }
    }
}

/// The configured interface types are all known exactly when each of them, without the
/// white space around it and ignoring case, is `ethernet`.
pub proof fn every_interface_type_has_to_be_known(config: Config)
    ensures
        unsupported(text::texts(config.link_check.interface_types@)) is None <==> forall|i: int|
            0 <= i < config.link_check.interface_types@.len() ==> text::ascii_lower(
                text::trimmed((#[trigger] config.link_check.interface_types@[i])@),
            ) == "ethernet"@,
{
    let names = text::texts(config.link_check.interface_types@);
    let bad = |n: Seq<char>| !is_supported(n);
    lists::lemma_first_where(names, bad);
    match lists::first_where(names, bad) {
        Some(n) => {
            let i = choose|i: int| 0 <= i < names.len() && names[i] == n;
            assert(bad(names[i]));
            assert(names[i] == config.link_check.interface_types@[i]@);
        },
        None => {
            assert forall|i: int| 0 <= i < config.link_check.interface_types@.len() implies
                text::ascii_lower(
                text::trimmed((#[trigger] config.link_check.interface_types@[i])@),
            ) == "ethernet"@ by {
                assert(names[i] == config.link_check.interface_types@[i]@);
                assert(!bad(names[i]));
            }
        },
    }
}

/// A configuration is accepted exactly when nothing is wrong with any part of it: the
/// account is filled in, the names are plain, the values are known and within their
/// limits.
pub proof fn a_configuration_is_accepted_when_nothing_is_wrong(
    config: &Config,
    out: Result<(), Error>,
)
    requires
        call_ensures(Config::validate, (config,), out),
    ensures
        out is Ok <==> {
            &&& exists|i: int|
                0 <= i < config.dial.entry_name@.len() && !text::is_white(
                    #[trigger] config.dial.entry_name@[i],
                )
            &&& exists|i: int|
                0 <= i < config.dial.username@.len() && !text::is_white(
                    #[trigger] config.dial.username@[i],
                )
            &&& config.dial.password@.len() > 0
            &&& exists|i: int|
                0 <= i < config.service.name@.len() && !text::is_white(
                    #[trigger] config.service.name@[i],
                )
            &&& forall|i: int|
                0 <= i < config.service.name@.len() ==> (#[trigger] config.service.name@[i]) != '\\'
                    && config.service.name@[i] != '/'
            &&& Level::of_name(config.log.level@) is Some
            &&& Rotation::of_name(config.log.rotation@) is Some
            &&& 1 <= config.monitor.reconnect_delay_secs
            &&& config.monitor.reconnect_delay_secs <= config.monitor.max_backoff_secs
            &&& config.monitor.event_debounce_ms <= 60_000
            &&& config.monitor.safety_recheck_secs == 0 || config.monitor.safety_recheck_secs >= 30
            &&& config.dial.dial_timeout_secs >= 10
            &&& config.link_check.interface_types@.len() > 0
            &&& forall|i: int|
                0 <= i < config.link_check.interface_types@.len() ==> text::ascii_lower(
                    text::trimmed((#[trigger] config.link_check.interface_types@[i])@),
                ) == "ethernet"@
        },
{
    every_interface_type_has_to_be_known(*config);
    let name = config.service.name@;
    if !has_separator(name) {
        assert forall|i: int| 0 <= i < name.len() implies (#[trigger] name[i]) != '\\' && name[i]
            != '/' by {
            assert(name.contains(name[i]));
        }
    }
}

/// A file is taken over exactly where it could be parsed and its configuration is
/// accepted; what is taken over is that configuration, from that path.
pub proof fn only_an_accepted_configuration_is_taken_over(
    path: String,
    parsed: Result<Config, String>,
    out: Result<Loaded, Error>,
    valid: Result<(), Error>,
)
    requires
        call_ensures(accept, (path, parsed), out),
        parsed matches Ok(config) ==> call_ensures(Config::validate, (&config,), valid),
    ensures
        out is Ok <==> parsed is Ok && valid is Ok,
        out matches Ok(loaded) ==> parsed == Ok::<Config, String>(loaded.config) && loaded.path
            == path,
        parsed is Ok ==> (out matches Err(e) ==> valid matches Err(v) && e.said() == v.said()),
{
}

/// The default configuration is accepted once the entry, the account and the password are
/// filled in.
pub proof fn the_defaults_are_accepted(default: Config, config: &Config, out: Result<(), Error>)
    requires
        call_ensures(Config::default, (), default),
        config.service == default.service,
        config.link_check == default.link_check,
        config.monitor == default.monitor,
        config.log == default.log,
        config.dial.dial_timeout_secs == default.dial.dial_timeout_secs,
        !text::is_blank(config.dial.entry_name@),
        !text::is_blank(config.dial.username@),
        config.dial.password@.len() > 0,
        call_ensures(Config::validate, (config,), out),
    ensures
        out is Ok,
{
    reveal_strlit("info");
    reveal_strlit("daily");
    reveal_strlit("ethernet");
    reveal_strlit("PppoeDialer");
    text::lemma_small_word("info"@);
    text::lemma_small_word("daily"@);
    text::lemma_small_word("ethernet"@);
    let name = config.service.name@;
    assert(name == "PppoeDialer"@);
    assert(!text::is_white(name[0]));
    assert(!has_separator(name)) by {
        assert forall|i: int| 0 <= i < name.len() implies (#[trigger] name[i]) != '\\' && name[i]
            != '/' by {}
    }
    let names = text::texts(config.link_check.interface_types@);
    assert(names == seq!["ethernet"@]);
    assert(names.len() == config.link_check.interface_types@.len());
    assert forall|i: int| 0 <= i < config.link_check.interface_types@.len() implies
        text::ascii_lower(text::trimmed((#[trigger] config.link_check.interface_types@[i])@))
        == "ethernet"@ by {
        assert(names[i] == config.link_check.interface_types@[i]@);
    }
    every_interface_type_has_to_be_known(*config);
}

/// Every configured interface type stands for wired ethernet, the type number 6, one for
/// one.
pub proof fn every_interface_type_is_ethernet(config: &Config, types: Vec<u32>)
    requires
        call_ensures(Config::interface_types, (config,), Ok(types)),
    ensures
        types@.len() == config.link_check.interface_types@.len(),
        types@.len() > 0,
        forall|i: int| 0 <= i < types@.len() ==> #[trigger] types@[i] == 6,
{
}

/// Of the interface types that are not known the first is told, as it is looked at: trimmed
/// and in lower case.
pub proof fn the_first_unknown_interface_type_is_told(names: Seq<Seq<char>>, at: int)
    requires
        0 <= at < names.len(),
        text::ascii_lower(text::trimmed(names[at])) != "ethernet"@,
        forall|i: int|
            0 <= i < at ==> text::ascii_lower(text::trimmed(#[trigger] names[i])) == "ethernet"@,
    ensures
        unsupported(names) == Some(text::ascii_lower(text::trimmed(names[at]))),
{
    let bad = |n: Seq<char>| !is_supported(n);
    assert forall|i: int| 0 <= i < at implies !bad(#[trigger] names[i]) by {}
    lists::lemma_first_is_least(names, bad, at);
}

/// Where a value names no level, that of information is used, and where one names no
/// rotation, the daily one.
pub proof fn unknown_names_fall_back(config: &Config, level: Level, rotation: Rotation)
    requires
        call_ensures(Config::level, (config,), level),
        call_ensures(Config::rotation, (config,), rotation),
    ensures
        Level::of_name(config.log.level@) matches Some(l) ==> level == l,
        Level::of_name(config.log.level@) is None ==> level is Info,
        Rotation::of_name(config.log.rotation@) matches Some(r) ==> rotation == r,
        Rotation::of_name(config.log.rotation@) is None ==> rotation is Daily,
{
}

/// A path that is given is used as it stands; without one the file next to the executable
/// is.
pub proof fn a_given_path_is_used_as_it_stands(path: &str, given: Location, default: Location)
    requires
        call_ensures(Config::resolve_path, (Some(path),), given),
        call_ensures(Config::resolve_path, (None,), default),
    ensures
        given is Given && given.path() == path@,
        default is BesideExe && default.path() == "pppoe.toml"@,
{
}

/// A log directory is needed, is meant without the white space around it, and is taken
/// relative to the executable unless it is absolute.
pub proof fn a_log_directory_is_located(dir: &str, absolute: bool, out: Result<Location, Error>)
    requires
        call_ensures(locate_log_dir, (dir, absolute), out),
    ensures
        out is Err <==> text::is_blank(dir@),
        out matches Ok(location) ==> location.path() == text::trimmed(dir@) && (location is Given
            <==> absolute) && (location is BesideExe <==> !absolute),
{
}

/// The secrets of a configuration are its account and its password.
pub proof fn the_account_and_the_password_are_secret(config: &Config, out: Vec<String>)
    requires
        call_ensures(Config::secrets, (config,), out),
    ensures
        out@.len() == 2,
        text::texts(out@).contains(config.dial.username@),
        text::texts(out@).contains(config.dial.password@),
        forall|i: int|
            0 <= i < out@.len() ==> (#[trigger] out@[i])@ == config.dial.username@ || out@[i]@
                == config.dial.password@,
{
    let all = text::texts(out@);
    assert(all.len() == out@.len() && all.len() == 2);
    assert(all[0] == config.dial.username@ && all[1] == config.dial.password@);
    assert forall|i: int| 0 <= i < out@.len() implies (#[trigger] out@[i])@
        == config.dial.username@ || out@[i]@ == config.dial.password@ by {
        assert(all[i] == out@[i]@);
    }
}

proof fn lemma_value_shifts(all: Seq<Seq<char>>, rest: Seq<Seq<char>>, from: int)
    requires
        from >= 0,
        all.len() == rest.len() + 1,
        forall|i: int| 0 <= i < rest.len() ==> rest[i] == #[trigger] all[i + 1],
    ensures
        value_from(all, from + 1) == value_from(rest, from),
    decreases rest.len() - from,
{
    if from < rest.len() {
        assert(rest[from] == all[from + 1]);
        if from + 1 < rest.len() {
            assert(rest[from + 1] == all[from + 1 + 1]);
        }
        assert(value_at(all, from + 1) == value_at(rest, from));
        lemma_value_shifts(all, rest, from + 1);
    }
}

/// The path of the configuration file, argument by argument: `--config=` with a path
/// behind it gives that path, `--config` gives the argument behind it where that is not
/// empty, and any other argument leaves the matter to the rest. So the first path that is
/// given counts.
pub proof fn the_first_configuration_path_counts(
    arg: Seq<char>,
    path: Seq<char>,
    rest: Seq<Seq<char>>,
)
    ensures
        value_from(Seq::empty(), 0) is None,
        path.len() > 0 ==> value_from(seq!["--config="@ + path] + rest, 0) == Some(path),
        path.len() > 0 ==> value_from(seq!["--config"@, path] + rest, 0) == Some(path),
        value_from(seq!["--config="@] + rest, 0) == value_from(rest, 0),
        arg != "--config"@ && !text::begins_with(arg, "--config="@) ==> value_from(
            seq![arg] + rest,
            0,
        ) == value_from(rest, 0),
{
    reveal_strlit("--config=");
    reveal_strlit("--config");
    let none = Seq::<Seq<char>>::empty();
    let joined = seq!["--config="@ + path] + rest;
    assert(joined[0] == "--config="@ + path);
    assert(joined[0].subrange(0, 9) == "--config="@);
    assert(joined[0].skip(9) == path);
    let split = seq!["--config"@, path] + rest;
    assert(split[0] == "--config"@ && split[1] == path);
    let empty = seq!["--config="@] + rest;
    assert(empty[0] == "--config="@);
    assert(empty[0].subrange(0, 9) == "--config="@);
    assert(empty[0].skip(9).len() == 0);
    lemma_value_shifts(empty, rest, 0);
    let other = seq![arg] + rest;
    assert(other[0] == arg);
    lemma_value_shifts(other, rest, 0);
}

/// The executable search finds that path.
pub proof fn the_command_line_is_searched(args: &[String], value: Option<String>)
    requires
        call_ensures(config_arg, (args,), value),
    ensures
        value is Some <==> value_from(text::texts(args@), 0) is Some,
        value matches Some(path) ==> value_from(text::texts(args@), 0) == Some(path@),
{
}

/// A file is text in one of three encodings, told apart by its first bytes: with a mark of
/// UTF-16 it always is, otherwise exactly when the rest is valid UTF-8.
pub proof fn the_first_bytes_tell_the_encoding(bytes: &[u8], out: Result<String, Error>)
    requires
        call_ensures(decode, (bytes,), out),
    ensures
        ({
            let b = bytes@;
            let wide = b.len() >= 2 && (b[0] == 0xFF && b[1] == 0xFE || b[0] == 0xFE && b[1]
                == 0xFF);
            let marked8 = b.len() >= 3 && b[0] == 0xEF && b[1] == 0xBB && b[2] == 0xBF;
            let plain = if marked8 {
                b.skip(3)
            } else {
                b
            };
            &&& wide ==> out is Ok
            &&& !wide ==> (out is Ok <==> vstd::utf8::valid_utf8(plain))
            &&& !wide ==> (out matches Ok(text) ==> text@ == vstd::utf8::decode_utf8(plain))
            &&& out matches Ok(text) ==> text_in(b) == Some(text@)
        }),
{
    lemma_marks(bytes@);
}

/// An odd byte at the end of a UTF-16 file is dropped, and costs nothing else.
pub proof fn an_odd_byte_is_dropped(bytes: Seq<u8>, last: u8, little_endian: bool)
    requires
        bytes.len() % 2 == 0,
    ensures
        units_in(bytes.push(last), little_endian) == units_in(bytes, little_endian),
{
    let more = units_in(bytes.push(last), little_endian);
    let fewer = units_in(bytes, little_endian);
    assert(more.len() == fewer.len());
    assert forall|i: int| 0 <= i < fewer.len() implies more[i] == fewer[i] by {
        assert(bytes.push(last)[2 * i] == bytes[2 * i]);
        assert(bytes.push(last)[2 * i + 1] == bytes[2 * i + 1]);
    }
    assert(more =~= fewer);
}

/// What cannot be read or decoded is told with the path of the file; what can be is handed
/// on as it is.
pub proof fn an_unreadable_file_is_told_by_its_path(
    path: &str,
    read: &Result<Vec<u8>, String>,
    out: Result<String, Error>,
)
    requires
        call_ensures(file_text, (path, read), out),
    ensures
        out is Ok <==> (*read matches Ok(bytes) && text_in(bytes@) is Some),
        *read matches Ok(bytes) ==> (out matches Ok(text) ==> text_in(bytes@) == Some(text@)),
        out matches Err(e) ==> text::has_text(e.said(), path@),
        *read matches Err(reason) ==> (out matches Err(e) ==> text::has_text(e.said(), reason@)),
{
    match *read {
        Err(reason) => {
            let head = "cannot read configuration file "@;
            let tail = ": "@ + reason@;
            let none = Seq::<char>::empty();
            let said = out->Err_0.said();
            assert(said == head + path@ + tail);
            text::lemma_stands_between(head, path@, tail);
            assert(said == (head + path@ + ": "@) + reason@ + none);
            text::lemma_stands_between(head + path@ + ": "@, reason@, none);
        },
        Ok(bytes) => {
            if text_in(bytes@) is None {
                let head = "cannot decode "@;
                let tail = ": "@ + ("not valid UTF-8: "@ + utf8_complaint(utf8_part(bytes@)));
                assert(out->Err_0.said() == head + path@ + tail);
                text::lemma_stands_between(head, path@, tail);
            }
        },
    }
}

/// The summary tells the entry of the configuration and shows the account and the password
/// as masked.
#[verifier::rlimit(60)]
#[verifier::spinoff_prover]
pub proof fn the_summary_names_the_entry(config: Config, types: Seq<char>)
    ensures
        text::has_text(
            config.summary_text(types),
            "entry:\""@ + config.dial.entry_name@ + "\", user:\"***\", password:\"***\""@,
        ),
        text::has_text(config.summary_text(types), types),
{
    reveal_strlit("\" } dial={ entry:\"");
    reveal_strlit("\" } dial={ ");
    reveal_strlit("entry:\"");
    reveal_strlit("\", user:\"***\", password:\"***\", pbk:\"");
    reveal_strlit("\", user:\"***\", password:\"***\"");
    reveal_strlit(", pbk:\"");
    assert("\" } dial={ entry:\""@ == "\" } dial={ "@ + "entry:\""@);
    assert("\", user:\"***\", password:\"***\", pbk:\""@ == "\", user:\"***\", password:\"***\""@
        + ", pbk:\""@);
    let all = config.summary_text(types);
    let shown = "entry:\""@ + config.dial.entry_name@ + "\", user:\"***\", password:\"***\""@;
    let head = "service={ name:\""@ + config.service.name@ + "\", display:\""@
        + config.service.display_name@ + "\" } dial={ "@;
    let at = head.len() as int;
    assert(all.subrange(at, at + shown.len()) == shown);
    assert(text::occurs_at(all, shown, at));
    let front = "service={ name:\""@ + config.service.name@ + "\", display:\""@
        + config.service.display_name@ + "\" } dial={ entry:\""@ + config.dial.entry_name@
        + "\", user:\"***\", password:\"***\", pbk:\""@ + config.dial.pbk_path@
        + "\", create_entry:"@ + text::truth(config.dial.create_entry_if_missing) + ", timeout:"@
        + text::decimal(config.dial.dial_timeout_secs as nat) + "s, domain:"@ + (
    if config.dial.domain@.len() == 0 {
        "\"\""@
    } else {
        "\"***\""@
    }) + " } link_check={ enabled:"@ + text::truth(config.link_check.enabled) + ", adapter:\""@
        + config.link_check.adapter_name@ + "\", types:"@;
    let from = front.len() as int;
    assert(all.subrange(from, from + types.len()) == types);
    assert(text::occurs_at(all, types, from));
}

/// A complaint is justified: what it says is wrong with a configuration is wrong with it.
pub proof fn every_complaint_is_justified(config: Config)
    ensures
        config.complaint() == Some("dial.entry_name must not be empty"@) ==> text::is_blank(config.dial.entry_name@),
        config.complaint() == Some("dial.username must not be empty"@) ==> text::is_blank(config.dial.username@),
        config.complaint() == Some("dial.password must not be empty"@) ==> config.dial.password@.len() == 0,
        config.complaint() == Some("service.name must be a plain name without path separators"@) ==> (text::is_blank(config.service.name@) || config.service.name@.contains('\\') || config.service.name@.contains('/')),
        config.complaint() == Some("log.level must be one of: error, warn, info, debug, trace"@) ==> Level::of_name(config.log.level@) is None,
        config.complaint() == Some("log.rotation must be either 'daily' or 'never'"@) ==> Rotation::of_name(config.log.rotation@) is None,
        config.complaint() == Some("monitor.reconnect_delay_secs must be at least 1"@) ==> config.monitor.reconnect_delay_secs == 0,
        config.complaint() == Some("monitor.max_backoff_secs must be >= monitor.reconnect_delay_secs"@) ==> config.monitor.max_backoff_secs < config.monitor.reconnect_delay_secs,
        config.complaint() == Some("monitor.event_debounce_ms must not exceed 60000"@) ==> config.monitor.event_debounce_ms > 60_000,
        config.complaint() == Some("monitor.safety_recheck_secs must be 0 (disabled) or at least 30"@) ==> 0 < config.monitor.safety_recheck_secs < 30,
        config.complaint() == Some("dial.dial_timeout_secs must be at least 10"@) ==> config.dial.dial_timeout_secs < 10,
        config.complaint() == Some("link_check.interface_types must not be empty"@) ==> config.link_check.interface_types@.len() == 0,
        config.complaint() == Some("link_check.interface_types contains an unsupported value (supported: ethernet)"@) ==> (exists|i: int| 0 <= i < config.link_check.interface_types@.len() && text::ascii_lower(text::trimmed((#[trigger] config.link_check.interface_types@[i])@)) != "ethernet"@),
{
    every_interface_type_has_to_be_known(config);
    lemma_complaints_differ();
}

proof fn lemma_complaints_differ()
    ensures
        "dial.entry_name must not be empty"@.len() == 33,
        "dial.username must not be empty"@.len() == 31,
        "dial.password must not be empty"@.len() == 31,
        "service.name must be a plain name without path separators"@.len() == 57,
        "log.level must be one of: error, warn, info, debug, trace"@.len() == 57,
        "log.rotation must be either 'daily' or 'never'"@.len() == 46,
        "monitor.reconnect_delay_secs must be at least 1"@.len() == 47,
        "monitor.max_backoff_secs must be >= monitor.reconnect_delay_secs"@.len() == 64,
        "monitor.event_debounce_ms must not exceed 60000"@.len() == 47,
        "monitor.safety_recheck_secs must be 0 (disabled) or at least 30"@.len() == 63,
        "dial.dial_timeout_secs must be at least 10"@.len() == 42,
        "link_check.interface_types must not be empty"@.len() == 44,
        "link_check.interface_types contains an unsupported value (supported: ethernet)"@.len() == 78,
        "dial.username must not be empty"@[5] == 'u',
        "dial.password must not be empty"@[5] == 'p',
        "service.name must be a plain name without path separators"@[0] == 's',
        "log.level must be one of: error, warn, info, debug, trace"@[0] == 'l',
        "monitor.reconnect_delay_secs must be at least 1"@[8] == 'r',
        "monitor.event_debounce_ms must not exceed 60000"@[8] == 'e',
{
    reveal_strlit("dial.entry_name must not be empty");
    reveal_strlit("dial.username must not be empty");
    reveal_strlit("dial.password must not be empty");
    reveal_strlit("service.name must be a plain name without path separators");
    reveal_strlit("log.level must be one of: error, warn, info, debug, trace");
    reveal_strlit("log.rotation must be either 'daily' or 'never'");
    reveal_strlit("monitor.reconnect_delay_secs must be at least 1");
    reveal_strlit("monitor.max_backoff_secs must be >= monitor.reconnect_delay_secs");
    reveal_strlit("monitor.event_debounce_ms must not exceed 60000");
    reveal_strlit("monitor.safety_recheck_secs must be 0 (disabled) or at least 30");
    reveal_strlit("dial.dial_timeout_secs must be at least 10");
    reveal_strlit("link_check.interface_types must not be empty");
    reveal_strlit("link_check.interface_types contains an unsupported value (supported: ethernet)");
}

/// The log directory of a configuration is needed and trimmed; a plain name is always
/// relative to the executable.
pub proof fn a_plain_log_directory_is_beside_the_executable(
    config: &Config,
    out: Result<Location, Error>,
)
    requires
        call_ensures(Config::log_dir, (config,), out),
    ensures
        out is Err <==> text::is_blank(config.log.dir@),
        out matches Ok(location) ==> {
            &&& location.path() == text::trimmed(config.log.dir@)
            &&& !location.path().contains('\\') && !location.path().contains('/')
                && !location.path().contains(':') ==> location is BesideExe
        },
{
}

/// The summary tells the timing of the service as it is configured.
#[verifier::rlimit(80)]
#[verifier::spinoff_prover]
pub proof fn the_summary_tells_the_timing(config: Config, types: Seq<char>)
    ensures
        text::has_text(
            config.summary_text(types),
            "monitor={ reconnect:"@ + text::decimal(config.monitor.reconnect_delay_secs as nat)
                + "s, max_backoff:"@ + text::decimal(config.monitor.max_backoff_secs as nat)
                + "s, jitter:"@ + text::decimal(config.monitor.backoff_jitter_secs as nat)
                + "s, debounce:"@ + text::decimal(config.monitor.event_debounce_ms as nat)
                + "ms, safety_recheck:"@ + text::decimal(config.monitor.safety_recheck_secs as nat),
        ),
{
    reveal_strlit(" } monitor={ reconnect:");
    reveal_strlit(" } ");
    reveal_strlit("monitor={ reconnect:");
    assert(" } monitor={ reconnect:"@ == " } "@ + "monitor={ reconnect:"@);
    let shown = "monitor={ reconnect:"@ + text::decimal(config.monitor.reconnect_delay_secs as nat)
        + "s, max_backoff:"@ + text::decimal(config.monitor.max_backoff_secs as nat)
        + "s, jitter:"@ + text::decimal(config.monitor.backoff_jitter_secs as nat) + "s, debounce:"@
        + text::decimal(config.monitor.event_debounce_ms as nat) + "ms, safety_recheck:"@
        + text::decimal(config.monitor.safety_recheck_secs as nat);
    let all = config.summary_text(types);
    let front = "service={ name:\""@ + config.service.name@ + "\", display:\""@
        + config.service.display_name@ + "\" } dial={ entry:\""@ + config.dial.entry_name@
        + "\", user:\"***\", password:\"***\", pbk:\""@ + config.dial.pbk_path@
        + "\", create_entry:"@ + text::truth(config.dial.create_entry_if_missing) + ", timeout:"@
        + text::decimal(config.dial.dial_timeout_secs as nat) + "s, domain:"@ + (
    if config.dial.domain@.len() == 0 {
        "\"\""@
    } else {
        "\"***\""@
    }) + " } link_check={ enabled:"@ + text::truth(config.link_check.enabled) + ", adapter:\""@
        + config.link_check.adapter_name@ + "\", types:"@ + types + " } "@;
    let from = front.len() as int;
    assert(all.subrange(from, from + shown.len()) == shown);
    assert(text::occurs_at(all, shown, from));
}

} // verus!
