//! Line classifier: a pure function from one raw text line and its stream of
//! origin to the domain events the line carries (peer discovered, peer
//! registered, client seen, readiness announced) and the display string to
//! store.
//!
//! The textual conventions scanned for are spelled out as spec functions over
//! the line's characters; every executable matcher is proved to return
//! exactly what its spec function describes.
use vstd::prelude::*;

use crate::text::{
    spec_find,
    skip_spaces,
    scan_digits,
    scan_word,
    scan_to_quote,
    find,
    skip_spaces_exec,
    scan_digits_exec,
    scan_word_exec,
    scan_to_quote_exec,
};

verus! {

/// Which of the supervised child's two output streams a line arrived on.
#[derive(Clone, Copy, Debug, PartialEq, Eq, Structural)]
pub enum StreamSource {
    Primary,
    Secondary,
}

/// A peer-related event extracted from one line.
#[derive(Debug, PartialEq, Eq)]
pub enum PeerEvent {
    /// A record naming the peer together with its address.
    FullRecord { name: String, address: String },
    /// A registration announcement naming the peer only.
    RegisteredOnly { name: String },
}

/// Everything one line yields: at most one peer event, at most one client
/// address, a readiness signal, and the string to append to the log.
#[derive(Debug, PartialEq, Eq)]
pub struct ClassificationResult {
    pub peer: Option<PeerEvent>,
    pub client: Option<String>,
    pub ready: bool,
    pub display: String,
}

/// Opening of a record line that names a peer.
pub open spec fn name_marker() -> Seq<char> {
    "{'name':"@
}

/// Key that precedes a peer's address inside a record line.
pub open spec fn ip_marker() -> Seq<char> {
    "'ip':"@
}

/// Announcement that precedes a bare peer identifier.
pub open spec fn reg_marker() -> Seq<char> {
    "Registering new puzzle"@
}

/// Opening of a "received message from (address, port)" style line.
pub open spec fn msg_marker() -> Seq<char> {
    "Received message from ('"@
}

/// Literal whose presence anywhere in a line signals service readiness.
pub open spec fn ready_marker() -> Seq<char> {
    "Serving at port 8080"@
}

/// Tag put in front of lines that arrived on the secondary stream.
pub open spec fn stderr_prefix() -> Seq<char> {
    "[STDERR] "@
}

/// A single-quoted, non-empty value after optional whitespace at position
/// `p`: returns the value's characters and the position just past the closing
/// quote.
pub open spec fn quoted_value(s: Seq<char>, p: int) -> Option<(Seq<char>, int)> {
    let q = skip_spaces(s, p);
    if q < s.len() && s[q] == '\'' {
        let e = scan_to_quote(s, q + 1);
        if e < s.len() && e > q + 1 {
            Some((s.subrange(q + 1, e), e + 1))
        } else {
            None
        }
    } else {
        None
    }
}

/// A full peer record in `s`: the name marker, a quoted name directly
/// followed by a comma, then the address key with its quoted value. Yields
/// (name, address).
pub open spec fn full_record_of(s: Seq<char>) -> Option<(Seq<char>, Seq<char>)> {
    match spec_find(s, name_marker(), 0) {
        None => None,
        Some(i) => match quoted_value(s, i + name_marker().len()) {
            None => None,
            Some(nv) => {
                if nv.1 < s.len() && s[nv.1] == ',' {
                    match spec_find(s, ip_marker(), nv.1 + 1) {
                        None => None,
                        Some(j) => match quoted_value(s, j + ip_marker().len()) {
                            None => None,
                            Some(av) => Some((nv.0, av.0)),
                        },
                    }
                } else {
                    None
                }
            },
        },
    }
}

/// A registration announcement in `s`: the registration marker, at least one
/// whitespace character, then a non-empty run of word characters — the peer's
/// name.
pub open spec fn registration_of(s: Seq<char>) -> Option<Seq<char>> {
    match spec_find(s, reg_marker(), 0) {
        None => None,
        Some(i) => {
            let p = i + reg_marker().len();
            let q = skip_spaces(s, p);
            if q > p {
                let e = scan_word(s, q);
                if e > q {
                    Some(s.subrange(q, e))
                } else {
                    None
                }
            } else {
                None
            }
        },
    }
}

/// One octet of a dotted-quad address at position `i`: one to three digits
/// whose run ends before position `i + 4`. Yields the position after the
/// digits.
pub open spec fn octet_end(s: Seq<char>, i: int) -> Option<int> {
    let e = scan_digits(s, i);
    if i < e && e <= i + 3 {
        Some(e)
    } else {
        None
    }
}

/// A dotted-quad address starting at position `i`: four octets separated by
/// dots. Yields the position after the last octet.
pub open spec fn quad_end(s: Seq<char>, i: int) -> Option<int> {
    match octet_end(s, i) {
        None => None,
        Some(e1) => if e1 < s.len() && s[e1] == '.' {
            match octet_end(s, e1 + 1) {
                None => None,
                Some(e2) => if e2 < s.len() && s[e2] == '.' {
                    match octet_end(s, e2 + 1) {
                        None => None,
                        Some(e3) => if e3 < s.len() && s[e3] == '.' {
                            octet_end(s, e3 + 1)
                        } else {
                            None
                        },
                    }
                } else {
                    None
                },
            }
        } else {
            None
        },
    }
}

/// An HTTP-access-log-style line: a dotted-quad address at the very start,
/// then whitespace, a dash, whitespace and a second dash. Yields the address.
pub open spec fn http_client_of(s: Seq<char>) -> Option<Seq<char>> {
    match quad_end(s, 0) {
        None => None,
        Some(e) => {
            let p = skip_spaces(s, e);
            if p > e && p < s.len() && s[p] == '-' {
                let q = skip_spaces(s, p + 1);
                if q > p + 1 && q < s.len() && s[q] == '-' {
                    Some(s.subrange(0, e))
                } else {
                    None
                }
            } else {
                None
            }
        },
    }
}

/// A "received message from (address, port)" style line: the message marker,
/// a dotted-quad address, a closing quote and a comma. Yields the address.
pub open spec fn msg_client_of(s: Seq<char>) -> Option<Seq<char>> {
    match spec_find(s, msg_marker(), 0) {
        None => None,
        Some(i) => {
            let p = i + msg_marker().len();
            match quad_end(s, p) {
                None => None,
                Some(e) => if e + 1 < s.len() && s[e] == '\'' && s[e + 1] == ',' {
                    Some(s.subrange(p, e))
                } else {
                    None
                },
            }
        },
    }
}

/// The client address a line carries, if any: the HTTP-access-log shape wins
/// over the message shape.
pub open spec fn classify_client(s: Seq<char>) -> Option<Seq<char>> {
    if http_client_of(s) is Some {
        http_client_of(s)
    } else {
        msg_client_of(s)
    }
}

/// Does the line announce that the service is serving?
pub open spec fn signals_ready(s: Seq<char>) -> bool {
    spec_find(s, ready_marker(), 0) is Some
}

/// The stream a line belongs to, from the pump's "is this the error stream"
/// flag.
pub open spec fn source_of(is_stderr: bool) -> StreamSource {
    if is_stderr {
        StreamSource::Secondary
    } else {
        StreamSource::Primary
    }
}

/// The string stored in the log for a line from the given stream: the line
/// itself from the primary stream, the tagged line from the secondary one.
pub open spec fn display_of(s: Seq<char>, source: StreamSource) -> Seq<char> {
    match source {
        StreamSource::Primary => s,
        StreamSource::Secondary => stderr_prefix() + s,
    }
}

/// Parse a single-quoted value after optional whitespace at `p`; on success
/// returns the value and the position just past its closing quote.
fn quoted_value_exec(s: &str, p: usize) -> (r: Option<(String, usize)>)
    requires
        p as int <= s@.len(),
    ensures
        match r {
            Some(v) => {
                &&& quoted_value(s@, p as int) matches Some(m) && m.0 == v.0@ && m.1 == v.1 as int
                &&& v.1 as int <= s@.len()
            },
            None => quoted_value(s@, p as int) is None,
        },
{
    let n = s.unicode_len();
    let q = skip_spaces_exec(s, p);
    if q < n && s.get_char(q) == '\'' {
        let e = scan_to_quote_exec(s, q + 1);
        if e < n && e > q + 1 {
            let val = s.substring_char(q + 1, e);
            Some((String::from_str(val), e + 1))
        } else {
            None
        }
    } else {
        None
    }
}

/// Match the full-record shape against a line; yields the peer's name and
/// address.
pub fn match_full_record(s: &str) -> (r: Option<(String, String)>)
    ensures
        match r {
            Some(v) => full_record_of(s@) matches Some(m) && m.0 == v.0@ && m.1 == v.1@,
            None => full_record_of(s@) is None,
        },
{
    let n = s.unicode_len();
    let name_pat = "{'name':";
    match find(s, name_pat, 0) {
        None => None,
        Some(i) => {
            match quoted_value_exec(s, i + name_pat.unicode_len()) {
                None => None,
                Some((name, p)) => {
                    if p < n && s.get_char(p) == ',' {
                        let ip_pat = "'ip':";
                        match find(s, ip_pat, p + 1) {
                            None => None,
                            Some(j) => {
                                match quoted_value_exec(s, j + ip_pat.unicode_len()) {
                                    None => None,
                                    Some((address, _end)) => Some((name, address)),
                                }
                            },
                        }
                    } else {
                        None
                    }
                },
            }
        },
    }
}

/// Match the registration-announcement shape against a line; yields the
/// peer's name.
pub fn match_registration(s: &str) -> (r: Option<String>)
    ensures
        match r {
            Some(v) => registration_of(s@) matches Some(m) && m == v@,
            None => registration_of(s@) is None,
        },
{
    let n = s.unicode_len();
    let pat = "Registering new puzzle";
    match find(s, pat, 0) {
        None => None,
        Some(i) => {
            let p = i + pat.unicode_len();
            let q = skip_spaces_exec(s, p);
            if q > p {
                let e = scan_word_exec(s, q);
                if e > q {
                    Some(String::from_str(s.substring_char(q, e)))
                } else {
                    None
                }
            } else {
                None
            }
        },
    }
}

/// Scan one octet of a dotted-quad address at `i`; yields the position after
/// its digits.
fn octet_end_exec(s: &str, i: usize) -> (r: Option<usize>)
    requires
        i as int <= s@.len(),
    ensures
        match r {
            Some(e) => octet_end(s@, i as int) == Some(e as int) && i < e && e as int <= s@.len(),
            None => octet_end(s@, i as int) is None,
        },
{
    let e = scan_digits_exec(s, i);
    if i < e && e - i <= 3 {
        Some(e)
    } else {
        None
    }
}

/// Scan a dotted-quad address at `i`; yields the position after its last
/// octet.
fn quad_end_exec(s: &str, i: usize) -> (r: Option<usize>)
    requires
        i as int <= s@.len(),
    ensures
        match r {
            Some(e) => quad_end(s@, i as int) == Some(e as int) && i < e && e as int <= s@.len(),
            None => quad_end(s@, i as int) is None,
        },
{
    let n = s.unicode_len();
    match octet_end_exec(s, i) {
        None => None,
        Some(e1) => {
            if e1 < n && s.get_char(e1) == '.' {
                match octet_end_exec(s, e1 + 1) {
                    None => None,
                    Some(e2) => {
                        if e2 < n && s.get_char(e2) == '.' {
                            match octet_end_exec(s, e2 + 1) {
                                None => None,
                                Some(e3) => {
                                    if e3 < n && s.get_char(e3) == '.' {
                                        octet_end_exec(s, e3 + 1)
                                    } else {
                                        None
                                    }
                                },
                            }
                        } else {
                            None
                        }
                    },
                }
            } else {
                None
            }
        },
    }
}

/// Match the HTTP-access-log shape against a line; yields the client's
/// address.
pub fn match_http_client(s: &str) -> (r: Option<String>)
    ensures
        match r {
            Some(v) => http_client_of(s@) matches Some(m) && m == v@,
            None => http_client_of(s@) is None,
        },
{
    match quad_end_exec(s, 0) {
        None => None,
        Some(e) => {
            let n = s.unicode_len();
            let p = skip_spaces_exec(s, e);
            if p > e && p < n && s.get_char(p) == '-' {
                let q = skip_spaces_exec(s, p + 1);
                if q > p + 1 && q < n && s.get_char(q) == '-' {
                    Some(String::from_str(s.substring_char(0, e)))
                } else {
                    None
                }
            } else {
                None
            }
        },
    }
}

/// Match the "received message from" shape against a line; yields the
/// client's address.
pub fn match_msg_client(s: &str) -> (r: Option<String>)
    ensures
        match r {
            Some(v) => msg_client_of(s@) matches Some(m) && m == v@,
            None => msg_client_of(s@) is None,
        },
{
    let n = s.unicode_len();
    let pat = "Received message from ('";
    match find(s, pat, 0) {
        None => None,
        Some(i) => {
            let p = i + pat.unicode_len();
            match quad_end_exec(s, p) {
                None => None,
                Some(e) => {
                    if e < n && s.get_char(e) == '\'' {
                        if e + 1 < n && s.get_char(e + 1) == ',' {
                            Some(String::from_str(s.substring_char(p, e)))
                        } else {
                            None
                        }
                    } else {
                        None
                    }
                },
            }
        },
    }
}

/// Classify one raw line from the given stream: extract its peer event (a
/// full record wins over a registration announcement), its client address (the
/// HTTP shape wins over the message shape), whether it signals readiness, and
/// build the display string to store.
pub fn classify(line: &str, source: StreamSource) -> (r: ClassificationResult)
    ensures
        r.ready == signals_ready(line@),
        r.display@ == display_of(line@, source),
        match full_record_of(line@) {
            Some(m) => r.peer matches Some(PeerEvent::FullRecord { name, address }) && name@
                == m.0 && address@ == m.1,
            None => match registration_of(line@) {
                Some(nm) => r.peer matches Some(PeerEvent::RegisteredOnly { name }) && name@ == nm,
                None => r.peer is None,
            },
        },
        match classify_client(line@) {
            Some(a) => r.client matches Some(c) && c@ == a,
            None => r.client is None,
        },
{
    let peer = match match_full_record(line) {
        Some((name, address)) => Some(PeerEvent::FullRecord { name, address }),
        None => match match_registration(line) {
            Some(name) => Some(PeerEvent::RegisteredOnly { name }),
            None => None,
        },
    };
    let client = match match_http_client(line) {
        Some(a) => Some(a),
        None => match_msg_client(line),
    };
    let ready = match find(line, "Serving at port 8080", 0) {
        Some(_) => true,
        None => false,
    };
    let display = match source {
        StreamSource::Primary => String::from_str(line),
        StreamSource::Secondary => String::from_str("[STDERR] ").concat(line),
    };
    ClassificationResult { peer, client, ready, display }
}

} // verus!
