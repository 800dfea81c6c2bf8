//! The container runtime's endpoint and what it tells of a container.

use vstd::prelude::*;

use crate::text::{cat2, cat3, chars_of, same};
use crate::time::Duration;

verus! {

/// How long the runtime is waited for, in seconds.
pub const DEFAULT_CONNECTION_TIMEOUT: u64 = 15;

/// A failure of the container runtime.
#[derive(Debug)]
pub enum CriError {
    /// The endpoint is not of the form `protocol://path`, or its protocol is not served.
    Endpoint(String),
    /// The connection failed.
    Transport(String),
    /// The call failed.
    Rpc(String),
    /// What the runtime told of the container cannot be used.
    Info(String),
    /// The call took too long.
    Timeout(Duration),
}

/// The form in which a span of time is shown for debugging.
pub uninterp spec fn span_text_of(secs: u64, nanos: u32) -> Seq<char>;

/// `format!` with `{:?}` on `std::time::Duration`: the form is named by `span_text_of`.
#[verifier::external_body]
pub(crate) fn span_text(secs: u64, nanos: u32) -> (r: String)
    requires
        nanos < 1_000_000_000,
    ensures
        r@ == span_text_of(secs, nanos),
{
    format!("{:?}", std::time::Duration::new(secs, nanos))
}

impl CriError {
    /// The text shown to a user.
    pub open spec fn text(self) -> Seq<char> {
        match self {
            CriError::Endpoint(m) => "bad endpoint: "@ + m@,
            CriError::Transport(m) => "transport error: "@ + m@,
            CriError::Rpc(m) => "rpc error: "@ + m@,
            CriError::Info(m) => "container info error: "@ + m@,
            CriError::Timeout(d) => "timed out after "@ + span_text_of(d.secs, d.nanos),
        }
    }

    /// The text shown to a user.
    pub fn message(&self) -> (r: String)
        requires
            self matches CriError::Timeout(d) ==> d.nanos < 1_000_000_000,
        ensures
            r@ == self.text(),
    {
        match self {
            CriError::Endpoint(m) => cat2("bad endpoint: ", m.as_str()),
            CriError::Transport(m) => cat2("transport error: ", m.as_str()),
            CriError::Rpc(m) => cat2("rpc error: ", m.as_str()),
            CriError::Info(m) => cat2("container info error: ", m.as_str()),
            CriError::Timeout(d) => cat2("timed out after ", span_text(d.secs, d.nanos).as_str()),
        }
    }
}

/// Whether `://` stands at index `i`.
pub open spec fn separator_at(s: Seq<char>, i: int) -> bool {
    0 <= i && i + 3 <= s.len() && s[i] == ':' && s[i + 1] == '/' && s[i + 2] == '/'
}

/// The index of the first `://` at or after `i`.
pub open spec fn first_separator(s: Seq<char>, i: int) -> Option<int>
    decreases s.len() - i,
{
    if i < 0 || i >= s.len() {
        None
    } else if separator_at(s, i) {
        Some(i)
    } else {
        first_separator(s, i + 1)
    }
}

/// The protocol and the path of an endpoint: what stands before and behind the first `://`,
/// neither of them empty.
pub open spec fn endpoint_of(s: Seq<char>) -> Option<(Seq<char>, Seq<char>)> {
    match first_separator(s, 0) {
        Some(i) => if i > 0 && i + 3 < s.len() {
            Some((s.take(i), s.skip(i + 3)))
        } else {
            None
        },
        None => None,
    }
}

/// The protocol and the path of an endpoint.
pub fn endpoint_parser(endpoint: &str) -> (r: Result<(&str, &str), CriError>)
    ensures
        match r {
            Ok((p, a)) => endpoint_of(endpoint@) == Some((p@, a@)),
            Err(e) => endpoint_of(endpoint@) is None && (e matches CriError::Endpoint(m) && m@
                == "bad endpoint format, should be 'protocol://path'"@),
        },
{
    let cs = chars_of(endpoint);
    let n: usize = cs.len();
    let mut i: usize = 0;
    while i < n
        invariant_except_break
            first_separator(endpoint@, i as int) == first_separator(endpoint@, 0),
        invariant
            n == cs@.len(),
            cs@ == endpoint@,
            i <= n,
        ensures
            if i < n {
                first_separator(endpoint@, 0) == Some(i as int) && i + 3 <= n
            } else {
                first_separator(endpoint@, 0) is None
            },
        decreases n - i,
    {
        if n - i >= 3 && cs[i] == ':' && cs[i + 1] == '/' && cs[i + 2] == '/' {
            assert(separator_at(endpoint@, i as int));
            break;
        }
        i = i + 1;
    }
    if i < n && i > 0 && i + 3 < n {
        let proto = endpoint.substring_char(0, i);
        let path = endpoint.substring_char(i + 3, n);
        assert(proto@ =~= endpoint@.take(i as int));
        assert(path@ =~= endpoint@.skip(i + 3));
        Ok((proto, path))
    } else {
        Err(
            CriError::Endpoint(
                String::from_str("bad endpoint format, should be 'protocol://path'"),
            ),
        )
    }
}

/// A container runtime behind a socket.
#[derive(Debug)]
pub struct RuntimeService {
    /// Path of the socket.
    pub path: String,
    /// How long a call may take.
    pub timeout: Duration,
}

impl RuntimeService {
    /// The runtime at an endpoint; only sockets are served.
    pub fn connect(endpoint: &str, timeout: Duration) -> (r: Result<RuntimeService, CriError>)
        ensures
            match endpoint_of(endpoint@) {
                None => r matches Err(CriError::Endpoint(m)) && m@
                    == "bad endpoint format, should be 'protocol://path'"@,
                Some((p, a)) => if p == "unix"@ {
                    r matches Ok(s) && s.path@ == a && s.timeout == timeout
                } else {
                    r matches Err(CriError::Endpoint(m)) && m@
                        == "only unix socket is supported, got '"@ + p + "'"@
                },
            },
    {
        match endpoint_parser(endpoint) {
            Ok((proto, path)) => {
                if same(proto, "unix") {
                    Ok(RuntimeService { path: path.to_owned(), timeout })
                } else {
                    Err(
                        CriError::Endpoint(
                            cat3("only unix socket is supported, got '", proto, "'"),
                        ),
                    )
                }
            },
            Err(e) => Err(e),
        }
    }
}

/// The verbose information of a container, which the runtime may have left out.
pub fn verbose_info(info: Option<String>) -> (r: Result<String, CriError>)
    ensures
        match info {
            Some(t) => r matches Ok(s) && s@ == t@,
            None => r matches Err(CriError::Info(m)) && m@ == "missing verbose 'info' field"@,
        },
{
    match info {
        Some(t) => Ok(t),
        None => Err(CriError::Info(String::from_str("missing verbose 'info' field"))),
    }
}

/// The process id of a container, from what reading its information gave.
pub fn pid_outcome(read: Result<i32, String>) -> (r: Result<i32, CriError>)
    ensures
        match read {
            Ok(pid) => r == Ok::<i32, CriError>(pid),
            Err(why) => r matches Err(CriError::Info(m)) && m@ == why@,
        },
{
    match read {
        Ok(pid) => Ok(pid),
        Err(why) => Err(CriError::Info(why)),
    }
}

} // verus!
