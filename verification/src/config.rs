//! How the process is set up: which ports it listens on, and whether it
//! serves plain HTTP or TLS only.

use crate::text::chars_of;
use vstd::prelude::*;
use vstd::string::*;

verus! {

/// The port of the dashboard over plain HTTP.
pub const HTTP_PORT: u16 = 8080;

/// The port of the dashboard over TLS.
pub const HTTPS_PORT: u16 = 6443;

/// The port of the health probes, which are always served over plain HTTP.
pub const HEALTH_PORT: u16 = 8081;

/// Whether `c` is the letter `lower`, in either case. `lower` is a small
/// ASCII letter.
pub open spec fn is_letter(c: char, lower: char) -> bool {
    c == lower || c as u32 + 0x20 == lower as u32
}

/// Whether `value` is the word `true`, in whatever mix of cases.
pub open spec fn spells_true(value: Seq<char>) -> bool {
    &&& value.len() == 4
    &&& is_letter(value[0], 't')
    &&& is_letter(value[1], 'r')
    &&& is_letter(value[2], 'u')
    &&& is_letter(value[3], 'e')
}

/// Whether the TLS-only mode is asked for by `value`, the environment's
/// `HTTPS_ONLY`.
pub open spec fn wants_https_only(value: Option<&str>) -> bool {
    match value {
        Some(text) => spells_true(text@),
        None => false,
    }
}

/// Whether `c` is the small ASCII letter `lower`, in either case.
fn letter_matches(c: char, lower: char) -> (r: bool)
    requires
        0x61 <= lower as u32 <= 0x7a,
    ensures
        r == is_letter(c, lower),
{
    let code: u32 = c as u32;
    let want: u32 = lower as u32;
    code == want || code == want - 0x20
}

/// Whether the TLS-only mode is on. `value` is the environment's
/// `HTTPS_ONLY`, `None` where it is not set. The mode is off unless the
/// value is the word `true`, in whatever mix of cases.
pub fn https_only(value: Option<&str>) -> (on: bool)
    ensures
        on == wants_https_only(value),
{
    match value {
        None => false,
        Some(text) => {
            let chars = chars_of(text);
            chars.len() == 4 && letter_matches(chars[0], 't') && letter_matches(chars[1], 'r')
                && letter_matches(chars[2], 'u') && letter_matches(chars[3], 'e')
        },
    }
}

/// How the dashboard is served.
#[derive(Clone, Copy, Debug, PartialEq, Eq, Structural)]
pub enum Listener {
    /// Plain HTTP on `port`.
    Http { port: u16 },
    /// TLS on `port`.
    Https { port: u16 },
}

/// Why the process refuses to start.
#[derive(Clone, Copy, Debug, PartialEq, Eq, Structural)]
pub enum StartupError {
    /// The TLS-only mode is on and no TLS configuration could be made.
    TlsUnavailable,
}

/// How the dashboard is served, given whether the TLS-only mode is on and,
/// if so, whether a TLS configuration could be made.
pub open spec fn listener_for(https_only: bool, tls_ready: bool) -> Result<Listener, StartupError> {
    if !https_only {
        Ok(Listener::Http { port: HTTP_PORT })
    } else if tls_ready {
        Ok(Listener::Https { port: HTTPS_PORT })
    } else {
        Err(StartupError::TlsUnavailable)
    }
}

/// Decides how the dashboard is served. Without the TLS-only mode it is
/// plain HTTP, whatever `tls_ready` says. In the TLS-only mode it is TLS, and
/// the process must not start where no TLS configuration could be made.
pub fn choose_listener(https_only: bool, tls_ready: bool) -> (listener: Result<
    Listener,
    StartupError,
>)
    ensures
        listener == listener_for(https_only, tls_ready),
{
    if !https_only {
        Ok(Listener::Http { port: HTTP_PORT })
    } else if tls_ready {
        Ok(Listener::Https { port: HTTPS_PORT })
    } else {
        Err(StartupError::TlsUnavailable)
    }
}

/// What the operator is told where the TLS-only mode has no TLS
/// configuration.
pub open spec fn tls_unavailable_text() -> Seq<char> {
    "HTTPS_ONLY=true but TLS certificates not found. "@
        + "Please provide TLS_CERT_FILE and TLS_KEY_FILE."@
}

impl StartupError {
    /// What to tell the operator.
    pub fn message(&self) -> (text: String)
        ensures
            text@ == tls_unavailable_text(),
    {
        let mut text = String::from_str("HTTPS_ONLY=true but TLS certificates not found. ");
        text.append("Please provide TLS_CERT_FILE and TLS_KEY_FILE.");
        text
    }
}

} // verus!
