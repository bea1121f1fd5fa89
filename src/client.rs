//! The controller client: credentials, session expiry, health, the request
//! pieces of a login, and the configuration that collection passes read.
use vstd::prelude::*;
use vstd::string::StringExecFns;
use crate::text::{decimal, integer_text, same_text};
use crate::config::CollectionConfig;
use crate::collect::{CollectionPass, FetchTask, plan_of, plan_tasks};

verus! {

/// The latest timestamp that is always rendered: the last second of year 9999.
pub const LAST_RENDERED_SECOND: i64 = 253402300799;

/// The name of the session cookie that a successful login sets.
pub open spec fn session_cookie_name() -> Seq<char> {
    "avi-sessionid"@
}

/// The text of a timestamp (seconds since the epoch) as `YYYY-MM-DD HH:MM:SS` in UTC.
pub uninterp spec fn utc_timestamp_text(secs: i64) -> Seq<char>;

/// Relies on chrono's `DateTime::<Utc>::from_timestamp`, which gives a date
/// for every second from year 1 to year 262143 and `None` past its range,
/// and on `format`, which renders it with the given pattern.
#[verifier::external_body]
fn utc_text(secs: i64) -> (r: Option<String>)
    ensures
        r matches Some(t) ==> t@ == utc_timestamp_text(secs),
        0 <= secs <= LAST_RENDERED_SECOND ==> r is Some,
{
    match chrono::DateTime::<chrono::Utc>::from_timestamp(secs, 0) {
        Some(d) => Some(d.format("%Y-%m-%d %H:%M:%S").to_string()),
        None => None,
    }
}

/// The session expiry after a login at `now`: `now` plus the session
/// cookie's max-age, or 0 when the response set no session cookie.
pub open spec fn expiry_after_login(now: int, max_age: Option<u64>) -> int {
    match max_age {
        Some(a) => now + a,
        None => 0,
    }
}

/// Whether a session expiry means healthy: a session was granted.
pub open spec fn healthy(expires: int) -> bool {
    expires != 0
}

/// Health as reported to the outside.
#[derive(PartialEq, Eq, Structural, Clone, Copy, Debug)]
pub enum Health {
    Healthy,
    Unhealthy,
}

impl Health {
    /// The name of the state.
    pub fn as_text(&self) -> (r: String)
        ensures
            *self is Healthy ==> r@ == "Healthy"@,
            *self is Unhealthy ==> r@ == "Unhealthy"@,
    {
        match self {
            Health::Healthy => String::from_str("Healthy"),
            Health::Unhealthy => String::from_str("Unhealthy"),
        }
    }
}

/// The text that reports a login: `Login expires in <expiry>`.
pub open spec fn login_report(expires: int) -> Seq<char> {
    "Login expires in "@ + decimal(expires)
}

/// The JSON credentials sent to the login endpoint.
pub open spec fn login_payload(username: Seq<char>, password: Seq<char>) -> Seq<char> {
    "{\"username\": \""@ + username + "\", \"password\": \""@ + password + "\"}"@
}

/// The login endpoint of a controller.
pub open spec fn login_uri(controller: Seq<char>) -> Seq<char> {
    "https://"@ + controller + "/login"@
}

/// The fixed request headers, as (name, value) texts.
pub open spec fn request_headers() -> Seq<(Seq<char>, Seq<char>)> {
    seq![
        ("X-Avi-Version"@, "18.1.2"@),
        ("user-agent"@, "kraken-rs"@),
        ("content-type"@, "application/json"@),
        ("accept-encoding"@, "application/json"@),
    ]
}

/// The connection to one controller. `expires` is the session's expiry in
/// seconds since the epoch, 0 while no session has been granted.
pub struct AviClient {
    pub expires: i64,
    pub threads: u16,
    pub username: String,
    pub password: String,
    pub controller: String,
    pub config_path: String,
    pub config: CollectionConfig,
}

impl AviClient {
    /// A client that has not logged in yet.
    pub fn new(
        username: String,
        password: String,
        controller: String,
        config_path: String,
        threads: u16,
        config: CollectionConfig,
    ) -> (r: AviClient)
        ensures
            r.expires == 0,
            r.threads == threads,
            r.username@ == username@,
            r.password@ == password@,
            r.controller@ == controller@,
            r.config_path@ == config_path@,
            r.config@ == config@,
    {
        AviClient { expires: 0, threads, username, password, controller, config_path, config }
    }

    /// The address of the login endpoint.
    pub fn login_address(&self) -> (r: String)
        ensures
            r@ == login_uri(self.controller@),
    {
        String::from_str("https://").concat(self.controller.as_str()).concat("/login")
    }

    /// The body of the login request.
    pub fn login_body(&self) -> (r: String)
        ensures
            r@ == login_payload(self.username@, self.password@),
    {
        String::from_str("{\"username\": \"").concat(self.username.as_str()).concat(
            "\", \"password\": \"",
        ).concat(self.password.as_str()).concat("\"}")
    }

    /// The headers sent with every upstream request.
    pub fn headers() -> (r: Vec<(String, String)>)
        ensures
            r@.map_values(|p: (String, String)| (p.0@, p.1@)) == request_headers(),
    {
        let mut h: Vec<(String, String)> = Vec::new();
        h.push((String::from_str("X-Avi-Version"), String::from_str("18.1.2")));
        h.push((String::from_str("user-agent"), String::from_str("kraken-rs")));
        h.push((String::from_str("content-type"), String::from_str("application/json")));
        h.push((String::from_str("accept-encoding"), String::from_str("application/json")));
        assert(h@.map_values(|p: (String, String)| (p.0@, p.1@)) =~= request_headers());
        h
    }

    /// The position of the first cookie named like the session cookie.
    pub fn find_session_cookie(names: &Vec<String>) -> (r: Option<usize>)
        ensures
            r matches Some(i) ==> i < names@.len() && names@[i as int]@ == session_cookie_name()
                && forall|j: int| 0 <= j < i ==> (#[trigger] names@[j])@ != session_cookie_name(),
            r is None ==> forall|j: int| 0 <= j < names@.len() ==> (#[trigger] names@[j])@
                != session_cookie_name(),
    {
        let mut i: usize = 0;
        while i < names.len()
            invariant
                i <= names@.len(),
                forall|j: int| 0 <= j < i ==> (#[trigger] names@[j])@ != session_cookie_name(),
            decreases names@.len() - i,
        {
            if same_text(names[i].as_str(), "avi-sessionid") {
                return Some(i);
            }
            i = i + 1;
        }
        None
    }

    /// Records the outcome of a login made at `now`: with a session cookie
    /// the session expires `max_age` seconds later, without one it is marked
    /// as not granted. Returns the report of the new expiry.
    pub fn login(&mut self, now: i64, max_age: Option<u64>) -> (r: String)
        requires
            max_age matches Some(a) ==> now + a <= i64::MAX,
        ensures
            final(self).expires == expiry_after_login(now as int, max_age),
            final(self).threads == old(self).threads,
            final(self).username == old(self).username,
            final(self).password == old(self).password,
            final(self).controller == old(self).controller,
            final(self).config_path == old(self).config_path,
            final(self).config == old(self).config,
            r@ == login_report(final(self).expires as int),
    {
        match max_age {
            Some(a) => {
                self.expires = (now as i128 + a as i128) as i64;
            },
            None => {
                self.expires = 0;
            },
        }
        let figure = integer_text(self.expires);
        String::from_str("Login expires in ").concat(figure.as_str())
    }

    /// Whether the session must be renewed at `now`: its expiry is not later
    /// than `now`.
    pub fn needs_renewal(&self, now: i64) -> (r: bool)
        ensures
            r == (self.expires - now <= 0),
    {
        self.expires <= now
    }

    /// Healthy once a session has been granted, whether or not it has
    /// expired since.
    pub fn health(&self) -> (r: Health)
        ensures
            (r is Healthy) == healthy(self.expires as int),
    {
        if self.expires == 0 {
            Health::Unhealthy
        } else {
            Health::Healthy
        }
    }

    /// Whether the expiry can be rendered as a date.
    pub fn expiry_in_range(&self) -> (r: bool)
        ensures
            r == (0 <= self.expires <= LAST_RENDERED_SECOND),
    {
        0 <= self.expires && self.expires <= LAST_RENDERED_SECOND
    }

    /// The session expiry as a UTC date and time.
    pub fn expires(&self) -> (r: String)
        requires
            0 <= self.expires <= LAST_RENDERED_SECOND,
        ensures
            r@ == utc_timestamp_text(self.expires),
    {
        match utc_text(self.expires) {
            Some(t) => t,
            None => String::new(),
        }
    }

    /// A collection pass over a snapshot of the current configuration, with
    /// at most `threads` fetches in flight.
    pub fn metrics(&self) -> (r: CollectionPass)
        ensures
            crate::collect::pass_wf(r@),
            r@.tasks == plan_of(self.controller@, self.config@),
            r@.workers == self.threads,
            r@.started == 0,
            r@.finished.len() == 0,
    {
        let snapshot = self.config.snapshot();
        let tasks: Vec<FetchTask> = plan_tasks(self.controller.as_str(), &snapshot);
        CollectionPass::new(tasks, self.threads as usize)
    }

    /// Replaces the whole configuration.
    pub fn update_config(&mut self, config: CollectionConfig)
        ensures
            final(self).config@ == config@,
            final(self).expires == old(self).expires,
            final(self).threads == old(self).threads,
            final(self).username == old(self).username,
            final(self).password == old(self).password,
            final(self).controller == old(self).controller,
            final(self).config_path == old(self).config_path,
    {
        self.config = config;
    }
}

/// The worker count used when none is given or the given one is not a `u16`.
pub const DEFAULT_WORKERS: u16 = 4;

/// Whether every character is an ASCII digit.
pub open spec fn all_digits(s: Seq<char>) -> bool {
    forall|i: int| 0 <= i < s.len() ==> '0' <= #[trigger] s[i] <= '9'
}

/// The value of a string of decimal digits.
pub open spec fn digits_value(s: Seq<char>) -> int
    decreases s.len(),
{
    if s.len() == 0 {
        0
    } else {
        digits_value(s.drop_last()) * 10 + (s.last() as int - '0' as int)
    }
}

/// The `u16` that a text spells: an optional `+` and then one or more
/// decimal digits whose value fits.
pub open spec fn u16_of_text(s: Seq<char>) -> Option<u16> {
    let body = if s.len() > 0 && s[0] == '+' { s.drop_first() } else { s };
    if body.len() > 0 && all_digits(body) && digits_value(body) <= u16::MAX {
        Some(digits_value(body) as u16)
    } else {
        None
    }
}

/// Relies on `u16::from_str`, documented to accept an optional `+` followed
/// by decimal digits only, and to fail on an empty text, any other character
/// and a value past `u16::MAX`.
#[verifier::external_body]
fn parse_u16(s: &str) -> (r: Option<u16>)
    ensures
        r == u16_of_text(s@),
{
    s.parse::<u16>().ok()
}

/// The worker count that a text configures: its `u16` value, or the default
/// when it does not spell one.
pub fn worker_count(text: &str) -> (r: u16)
    ensures
        u16_of_text(text@) matches Some(v) ==> r == v,
        u16_of_text(text@) is None ==> r == DEFAULT_WORKERS,
{
    match parse_u16(text) {
        Some(v) => v,
        None => DEFAULT_WORKERS,
    }
}

/// Health follows the last login alone: no session cookie leaves the client
/// unhealthy, and a granted session keeps it healthy at any later time, also
/// after the session's max-age has run out. A new client is unhealthy.
pub proof fn lemma_health_follows_login(now: int, max_age: Option<u64>, later: int)
    requires
        max_age matches Some(a) ==> now + a != 0,
    ensures
        !healthy(0),
        max_age is None ==> !healthy(expiry_after_login(now, max_age)),
        max_age is Some ==> healthy(expiry_after_login(now, max_age)),
        max_age is Some && expiry_after_login(now, max_age) - later <= 0 ==> healthy(
            expiry_after_login(now, max_age),
        ),
{
}

} // verus!
