//! Laws of health and of the HTTP endpoints, stated on times and texts.

use vstd::prelude::*;

use crate::observability::health::{health_body, health_status, Component, ComponentHealth};
use crate::observability::http::{
    first_line, first_word, is_not_found, path_of, phrase, rest_of, wire_text, word_end, Response,
};
use crate::observability::logging::{level_of, LevelFilter};
use crate::observability::metrics::{families, ServiceSeries};
use crate::text::is_whitespace;
use crate::time::Instant;

verus! {

/// A point in time in nanoseconds since the origin.
pub open spec fn nanos(t: Instant) -> int {
    t.since.secs * 1_000_000_000 + t.since.nanos
}

/// How long after `a` the point `b` is, nothing where it is not later.
pub open spec fn between(a: Instant, b: Instant) -> int {
    if nanos(b) > nanos(a) {
        nanos(b) - nanos(a)
    } else {
        0
    }
}

/// A component is late exactly where more time has gone by since its last heartbeat than its sync
/// period, one and a half seconds, and the time that its first heartbeat took to come.
pub proof fn lemma_late_by_times(h: ComponentHealth, now: Instant)
    ensures
        h.late(now) <==> between(h.last, now) > h.sync_period.secs * 1_000_000_000
            + h.sync_period.nanos + 1_500_000_000 + (if h.first is Some {
            between(h.registered, h.first->0)
        } else {
            0
        }),
{
}

/// All is well exactly where no component that is known is late; that is answered with 200 and
/// `OK`, anything else with 500 and `Unhealthy`.
pub proof fn lemma_health_by_components(m: Map<Component, ComponentHealth>, now: Instant)
    ensures
        health_status(m, now) == 200 <==> forall|c: Component| #[trigger]
            m.contains_key(c) ==> !m[c].late(now),
        health_status(m, now) == 200 || health_status(m, now) == 500,
        health_status(m, now) == 200 ==> health_body(m, now) == "OK"@,
        health_status(m, now) == 500 ==> health_body(m, now) == "Unhealthy"@,
{
}

/// The record of a component after heartbeats: the last one counts as the last, the first one as
/// the first; registration and period stay.
pub proof fn lemma_heartbeat_by_fields(
    m: Map<Component, ComponentHealth>,
    c: Component,
    now: Instant,
)
    requires
        m.contains_key(c),
    ensures
        ({
            let r = crate::observability::health::beaten(m, c, now)[c];
            &&& r.last == now
            &&& m[c].first is None ==> r.first == Some(now)
            &&& m[c].first is Some ==> r.first == m[c].first
            &&& r.registered == m[c].registered
            &&& r.sync_period == m[c].sync_period
        }),
{
}

/// A word: not empty, and without white space.
pub open spec fn is_word(w: Seq<char>) -> bool {
    w.len() > 0 && forall|i: int| 0 <= i < w.len() ==> !is_whitespace(#[trigger] w[i])
}

proof fn lemma_word_ends(s: Seq<char>, i: int, end: int)
    requires
        0 <= i <= end <= s.len(),
        forall|k: int| i <= k < end ==> !is_whitespace(#[trigger] s[k]),
        end < s.len() ==> is_whitespace(s[end]),
    ensures
        word_end(s, i) == end,
    decreases end - i,
{
    if i < end {
        lemma_word_ends(s, i + 1, end);
    }
}

proof fn lemma_first_word(w: Seq<char>, rest: Seq<char>)
    requires
        is_word(w),
        rest.len() > 0 ==> is_whitespace(rest[0]),
    ensures
        first_word(w + rest) == w,
        rest_of(w + rest) == rest,
{
    let s = w + rest;
    assert(s[0] == w[0]);
    assert(crate::text::trim_start(s) == s);
    assert forall|k: int| 0 <= k < w.len() implies !is_whitespace(#[trigger] s[k]) by {
        assert(s[k] == w[k]);
    }
    lemma_word_ends(s, 0, w.len() as int);
    assert(s.take(w.len() as int) =~= w);
    assert(s.skip(w.len() as int) =~= rest);
}

/// The path of a request is its second word: of a line that is a word, a blank, a second word,
/// and then nothing or white space, whatever lines follow, it is that second word.
pub proof fn lemma_path_is_second_word(
    method: Seq<char>,
    path: Seq<char>,
    tail: Seq<char>,
    lines: Seq<char>,
)
    requires
        is_word(method),
        is_word(path),
        tail.len() > 0 ==> is_whitespace(tail[0]),
        !tail.contains('\n'),
        lines.len() > 0 ==> lines[0] == '\n',
    ensures
        path_of(method + seq![' '] + path + tail + lines) == Some(path),
{
    let line = method + seq![' '] + path + tail;
    let req = line + lines;
    let n = line.len() as int;
    assert forall|k: int| 0 <= k < n implies !set!['\n'].contains(#[trigger] req[k]) by {
        if k < method.len() {
            assert(req[k] == method[k]);
        } else if k == method.len() {
            assert(req[k] == ' ');
        } else if k < method.len() + 1 + path.len() {
            assert(req[k] == path[k - method.len() - 1]);
        } else {
            let t = k - method.len() - 1 - path.len();
            assert(req[k] == tail[t]);
            assert(tail.contains(tail[t]));
        }
    }
    if n < req.len() {
        assert(req[n] == lines[0]);
    }
    crate::text::lemma_find_any(req, set!['\n'], n);
    assert(first_line(req) =~= line);
    let rest = seq![' '] + path + tail;
    assert(line =~= method + rest);
    assert(rest[0] == ' ');
    lemma_first_word(method, rest);
    let more = path + tail;
    assert(rest.skip(1) =~= more);
    assert(more[0] == path[0]);
    assert(crate::text::trim_start(rest.skip(1)) == more);
    assert(crate::text::trim_start(rest) == more);
    assert(crate::text::trim_start(more) == more);
    lemma_first_word(path, tail);
    assert(first_word(rest) == first_word(more));
}

/// A request whose first line has fewer than two words asks for no path.
pub proof fn lemma_no_path(word: Seq<char>, lines: Seq<char>)
    requires
        is_word(word),
        lines.len() > 0 ==> lines[0] == '\n',
    ensures
        path_of(word + lines) is None,
        path_of(lines) is None,
{
    let req = word + lines;
    let n = word.len() as int;
    assert forall|k: int| 0 <= k < n implies !set!['\n'].contains(#[trigger] req[k]) by {
        assert(req[k] == word[k]);
    }
    if n < req.len() {
        assert(req[n] == lines[0]);
    }
    crate::text::lemma_find_any(req, set!['\n'], n);
    assert(first_line(req) =~= word + Seq::<char>::empty());
    lemma_first_word(word, Seq::empty());
    let none = Seq::<char>::empty();
    assert(first_word(none) =~= none);
    crate::text::lemma_find_any(lines, set!['\n'], 0);
    assert(first_line(lines) =~= none);
}

/// The answer as it is sent: the status line with number and phrase, three headers, an empty
/// line, the body; the length is that of the body in bytes.
pub proof fn lemma_answer_written_out(resp: Response)
    ensures
        ({
            let status_line = "HTTP/1.1 "@ + crate::text::dec(resp.status as nat) + " "@ + phrase(
                resp.status,
            );
            let kind = "\r\nContent-Type: "@ + resp.content_type@;
            let length = "\r\nContent-Length: "@ + crate::text::dec(
                vstd::utf8::encode_utf8(resp.body@).len(),
            );
            wire_text(resp) == status_line + kind + length + "\r\nConnection: close\r\n\r\n"@
                + resp.body@
        }),
        phrase(200) == "OK"@,
        phrase(404) == "Not Found"@,
        phrase(500) == "Internal Server Error"@,
        forall|s: u16| s != 200 && s != 404 && s != 500 ==> #[trigger] phrase(s) == "Unknown"@,
        is_not_found(resp) <==> resp.status == 404 && resp.content_type@ == "text/plain"@
            && resp.body@ == "not found"@,
{
    let status_line = "HTTP/1.1 "@ + crate::text::dec(resp.status as nat) + " "@ + phrase(
        resp.status,
    );
    let kind = "\r\nContent-Type: "@ + resp.content_type@;
    let length = "\r\nContent-Length: "@ + crate::text::dec(
        vstd::utf8::encode_utf8(resp.body@).len(),
    );
    assert(wire_text(resp) =~= status_line + kind + length + "\r\nConnection: close\r\n\r\n"@
        + resp.body@);
}

/// The verbosity that a number stands for; a text that is no number stands for the least.
pub proof fn lemma_levels(n: nat, text: Seq<char>)
    ensures
        level_of(crate::text::dec(0)) == LevelFilter::INFO,
        level_of(crate::text::dec(1)) == LevelFilter::DEBUG,
        2 <= n <= 0xffff_ffff ==> level_of(crate::text::dec(n)) == LevelFilter::TRACE,
        crate::text::unsigned_of(crate::text::trimmed(text), 0xffff_ffff) is None ==> level_of(
            text,
        ) == LevelFilter::INFO,
{
    lemma_numeral_is_trimmed(0);
    lemma_numeral_is_trimmed(1);
    lemma_numeral_is_trimmed(n);
    crate::text_laws::lemma_number_reads_back(0, 0xffff_ffff);
    crate::text_laws::lemma_number_reads_back(1, 0xffff_ffff);
    crate::text_laws::lemma_number_reads_back(n, 0xffff_ffff);
}

/// A decimal numeral has no white space at its ends.
pub proof fn lemma_numeral_is_trimmed(n: nat)
    ensures
        crate::text::trimmed(crate::text::dec(n)) == crate::text::dec(n),
{
    let d = crate::text::dec(n);
    crate::text::lemma_numeral(n, 10);
    assert(crate::text::is_digit_of(d[0], 10));
    assert(crate::text::is_digit_of(d[d.len() - 1], 10));
    assert(!is_whitespace(d[0]));
    assert(!is_whitespace(d[d.len() - 1]));
    assert(crate::text::trim_start(d) == d);
    assert(crate::text::trim_end(d) == d);
}

/// The families of metrics, and the values of the labels of a series in the order of the labels.
pub proof fn lemma_series_written_out(s: ServiceSeries)
    ensures
        families() == seq![
            ("service_total_connections", "Total incoming connections made"),
            ("service_packets_in", "Total incoming packets"),
            ("service_packets_out", "Total outgoing packets"),
            ("service_bytes_in", "Total incoming bytes"),
            ("service_bytes_out", "Total outgoing bytes"),
            ("service_cps", "Service connections per second"),
            ("service_pps_in", "Incoming packets per second"),
            ("service_pps_out", "Outgoing packets per second"),
            ("service_bps_in", "Incoming bytes per second"),
            ("service_bps_out", "Outgoing bytes per second"),
        ],
        s.values().len() == 5,
        s.values()[0] == s.namespace@,
        s.values()[1] == s.service@,
        s.values()[2] == s.vip@,
        s.values()[3] == s.protocol@,
        s.values()[4] == crate::text::dec(s.port as nat),
{
}

} // verus!
