//! The HTTP endpoints: which path a request asks for, what is answered, and how the answer is
//! written.

use vstd::prelude::*;

use crate::observability::health::HealthState;
use crate::text::{cat2, cat6, chars_of, dec_text, same, starts_with};
use crate::time::Instant;

verus! {

/// An answer.
#[derive(Debug)]
pub struct Response {
    /// Status code.
    pub status: u16,
    /// Kind of the body.
    pub content_type: &'static str,
    /// Body.
    pub body: String,
}

/// The phrase of a status code.
pub open spec fn phrase(status: u16) -> Seq<char> {
    if status == 200 {
        "OK"@
    } else if status == 404 {
        "Not Found"@
    } else if status == 500 {
        "Internal Server Error"@
    } else {
        "Unknown"@
    }
}

/// The phrase of a status code.
pub fn reason(status: u16) -> (r: &'static str)
    ensures
        r@ == phrase(status),
{
    if status == 200 {
        "OK"
    } else if status == 404 {
        "Not Found"
    } else if status == 500 {
        "Internal Server Error"
    } else {
        "Unknown"
    }
}

/// The first line of a text: what stands before the first line feed.
pub open spec fn first_line(s: Seq<char>) -> Seq<char> {
    s.take(crate::text::index_of(s, '\n') as int)
}

/// The first word of a text, and what stands behind it: leading white space is dropped, and the
/// word ends before the next white space.
pub open spec fn word_end(s: Seq<char>, i: int) -> int
    decreases s.len() - i,
{
    if 0 <= i < s.len() && !crate::text::is_whitespace(s[i]) {
        word_end(s, i + 1)
    } else {
        i
    }
}

/// The first word.
pub open spec fn first_word(s: Seq<char>) -> Seq<char> {
    let t = crate::text::trim_start(s);
    t.take(word_end(t, 0))
}

/// What stands behind the first word.
pub open spec fn rest_of(s: Seq<char>) -> Seq<char> {
    let t = crate::text::trim_start(s);
    t.skip(word_end(t, 0))
}

/// The path of a request: the second word of its first line.
pub open spec fn path_of(req: Seq<char>) -> Option<Seq<char>> {
    let line = first_line(req);
    let rest = rest_of(line);
    if first_word(line).len() == 0 || first_word(rest).len() == 0 {
        None
    } else {
        Some(first_word(rest))
    }
}

/// The end of a word lies behind its start and within the text.
proof fn lemma_word_end(s: Seq<char>, i: int)
    requires
        0 <= i <= s.len(),
    ensures
        i <= word_end(s, i) <= s.len(),
    decreases s.len() - i,
{
    if i < s.len() && !crate::text::is_whitespace(s[i]) {
        lemma_word_end(s, i + 1);
    }
}

/// Splits off the first word.
pub fn next_word<'a>(s: &'a str) -> (r: (&'a str, &'a str))
    ensures
        r.0@ == first_word(s@),
        r.1@ == rest_of(s@),
{
    let cs = chars_of(s);
    let mut i: usize = 0;
    assert(cs@.skip(0) =~= cs@);
    while i < cs.len() && crate::text::whitespace(cs[i])
        invariant
            i <= cs@.len(),
            crate::text::trim_start(cs@.skip(i as int)) == crate::text::trim_start(cs@),
        decreases cs@.len() - i,
    {
        assert(cs@.skip(i as int).skip(1) =~= cs@.skip(i + 1));
        i = i + 1;
    }
    let ghost t = cs@.skip(i as int);
    assert(crate::text::trim_start(cs@) == t);
    let mut j: usize = i;
    while j < cs.len() && !crate::text::whitespace(cs[j])
        invariant
            i <= j <= cs@.len(),
            t == cs@.skip(i as int),
            word_end(t, j - i) == word_end(t, 0),
        decreases cs@.len() - j,
    {
        assert(t[j - i] == cs@[j as int]);
        j = j + 1;
    }
    assert(word_end(t, 0) == j - i);
    let word = s.substring_char(i, j);
    let rest = s.substring_char(j, cs.len());
    assert(word@ =~= t.take(j - i));
    assert(rest@ =~= t.skip(j - i));
    (word, rest)
}

/// The path that a request asks for.
pub fn parse_path(req: &str) -> (r: Option<&str>)
    ensures
        match r {
            Some(p) => path_of(req@) == Some(p@),
            None => path_of(req@) is None,
        },
{
    let cs = chars_of(req);
    let end: usize = crate::text::find_char(&cs, '\n');
    let line = req.substring_char(0, end);
    assert(line@ =~= first_line(req@));
    let (method, rest) = next_word(line);
    if method.is_empty() {
        return None;
    }
    let (path, _rest) = next_word(rest);
    if path.is_empty() {
        None
    } else {
        Some(path)
    }
}

/// The answer as it is sent: status line, headers, an empty line, the body. The length is that of
/// the body in bytes.
pub open spec fn wire_text(resp: Response) -> Seq<char> {
    "HTTP/1.1 "@ + crate::text::dec(resp.status as nat) + " "@ + phrase(resp.status)
        + "\r\nContent-Type: "@ + resp.content_type@ + ("\r\nContent-Length: "@ + crate::text::dec(
        vstd::utf8::encode_utf8(resp.body@).len(),
    ) + "\r\nConnection: close\r\n\r\n"@ + resp.body@)
}

/// The answer as it is sent.
pub fn render(resp: &Response) -> (r: String)
    ensures
        r@ == wire_text(*resp),
{
    let body = resp.body.as_str();
    let n: usize = body.as_bytes().len();
    let head = cat6(
        "HTTP/1.1 ",
        dec_text(resp.status as u64).as_str(),
        " ",
        reason(resp.status),
        "\r\nContent-Type: ",
        resp.content_type,
    );
    let tail = cat2(
        cat2("\r\nContent-Length: ", dec_text(n as u64).as_str()).as_str(),
        "\r\nConnection: close\r\n\r\n",
    );
    cat2(head.as_str(), cat2(tail.as_str(), body).as_str())
}

fn not_found() -> (r: Response)
    ensures
        is_not_found(r),
{
    Response { status: 404, content_type: "text/plain", body: String::from_str("not found") }
}

/// The answer for a path that is not served.
pub open spec fn is_not_found(r: Response) -> bool {
    r.status == 404 && r.content_type@ == "text/plain"@ && r.body@ == "not found"@
}

/// The answer of the health server: paths that start with `/healthz` show the health, all others
/// are not found.
pub fn health_handler(state: &HealthState, path: &str, now: Instant) -> (r: Response)
    requires
        state.wf(),
    ensures
        if crate::text::has_prefix(path@, "/healthz"@) {
            r.status == crate::observability::health::health_status(state@, now)
                && r.content_type@ == "text/plain"@ && r.body@
                == crate::observability::health::health_body(state@, now)
        } else {
            is_not_found(r)
        },
{
    if starts_with(path, "/healthz") {
        let (status, body) = state.healthz_response(now);
        Response { status, content_type: "text/plain", body: body.to_owned() }
    } else {
        not_found()
    }
}

/// The answer of the metrics server: the gathered metrics at exactly its own path.
pub fn metrics_handler(metrics_path: &str, path: &str, gathered: String) -> (r: Response)
    ensures
        if path@ == metrics_path@ {
            r.status == 200 && r.content_type@ == "text/plain; version=0.0.4"@ && r.body@
                == gathered@
        } else {
            is_not_found(r)
        },
{
    if same(path, metrics_path) {
        Response { status: 200, content_type: "text/plain; version=0.0.4", body: gathered }
    } else {
        not_found()
    }
}

/// The answer to a raw request, as the health server sends it; a request without a path asks for
/// the root.
pub fn health_reply(state: &HealthState, req: &str, now: Instant) -> (r: Response)
    requires
        state.wf(),
    ensures
        ({
            let p = match path_of(req@) {
                Some(p) => p,
                None => "/"@,
            };
            if crate::text::has_prefix(p, "/healthz"@) {
                r.status == crate::observability::health::health_status(state@, now)
                    && r.content_type@ == "text/plain"@ && r.body@
                    == crate::observability::health::health_body(state@, now)
            } else {
                is_not_found(r)
            }
        }),
{
    match parse_path(req) {
        Some(p) => health_handler(state, p, now),
        None => health_handler(state, "/", now),
    }
}

} // verus!
