//! What the forward listener decides from the bytes it has read: whether the
//! request head is complete, whether it is a CONNECT and for which target, and
//! whether a CONNECT is terminated locally or tunnelled blindly.
use vstd::prelude::*;
use crate::logging::{lookup, lower_of, LoggingMap};
use crate::model::LocalRoute;
use crate::router::{any_match, host_no_port, resolve_connect_target, strip_port};
use crate::settings::{parse_u16, parses_u16};
use crate::text::{before, before_space, before_space_str, eq_ic, eq_ignore_case, find_char, trim, trim_str};

verus! {

/// The most bytes of a request head that the listener reads.
pub const MAX_HEADER_LEN: usize = 8192;

/// `buf` holds `\r\n\r\n` starting at `i`.
pub open spec fn blank_line_at(buf: Seq<u8>, i: int) -> bool {
    0 <= i && i + 4 <= buf.len() && buf[i] == 13u8 && buf[i + 1] == 10u8 && buf[i + 2] == 13u8
        && buf[i + 3] == 10u8
}

pub open spec fn has_blank_line(buf: Seq<u8>) -> bool {
    exists|i: int| blank_line_at(buf, i)
}

/// The end of the request head: the index just past the first `\r\n\r\n`.
pub fn find_header_end(buf: &[u8]) -> (r: Option<usize>)
    ensures
        match r {
            Some(e) => is_header_end(buf@, e as int),
            None => !has_blank_line(buf@),
        },
{
    let n = buf.len();
    let mut i: usize = 0;
    while i < n && n - i >= 4
        invariant
            n == buf@.len(),
            i <= n,
            forall|j: int| 0 <= j < i ==> !blank_line_at(buf@, j),
        decreases n - i,
    {
        if buf[i] == 13 && buf[i + 1] == 10 && buf[i + 2] == 13 && buf[i + 3] == 10 {
            return Some(i + 4);
        }
        i = i + 1;
    }
    proof {
        assert forall|j: int| !blank_line_at(buf@, j) by {
            if 0 <= j && j < i {
            }
        }
    }
    None
}

/// Where reading the request head stands.
#[derive(Clone, Copy, Debug, PartialEq, Eq, Structural)]
pub enum HeadState {
    /// The head ends at this index.
    Complete(usize),
    /// Read more bytes.
    NeedMore,
    /// The cap was reached without a blank line: close the connection.
    TooLarge,
    /// The client closed before the head ended.
    Closed,
}

/// After a read: complete when a blank line was seen; else too large at the
/// cap, closed at end of stream, and otherwise more is needed.
pub fn head_state(buf: &[u8], eof: bool) -> (r: HeadState)
    ensures
        has_blank_line(buf@) <==> r is Complete,
        r matches HeadState::Complete(e) ==> is_header_end(buf@, e as int),
        !has_blank_line(buf@) ==> (if buf@.len() >= MAX_HEADER_LEN {
            r == HeadState::TooLarge
        } else if eof {
            r == HeadState::Closed
        } else {
            r == HeadState::NeedMore
        }),
{
    match find_header_end(buf) {
        Some(e) => HeadState::Complete(e),
        None => if buf.len() >= MAX_HEADER_LEN {
            HeadState::TooLarge
        } else if eof {
            HeadState::Closed
        } else {
            HeadState::NeedMore
        },
    }
}

/// The bytes read past the request head, to be handed on before anything else.
pub fn bytes_after_header(buf: &[u8]) -> (r: Vec<u8>)
    ensures
        match find_header_end_spec(buf@) {
            Some(e) => r@ == buf@.subrange(e, buf@.len() as int),
            None => r@.len() == 0,
        },
{
    match find_header_end(buf) {
        Some(e) => {
            let mut out: Vec<u8> = Vec::new();
            let mut i: usize = e;
            while i < buf.len()
                invariant
                    e <= i <= buf@.len(),
                    out@ == buf@.subrange(e as int, i as int),
                decreases buf@.len() - i,
            {
                out.push(buf[i]);
                assert(out@ =~= buf@.subrange(e as int, i + 1));
                i = i + 1;
            }
            proof {
                lemma_header_end_unique(buf@, e as int);
            }
            out
        },
        None => Vec::new(),
    }
}

/// The index just past the first blank line, if any.
pub open spec fn find_header_end_spec(buf: Seq<u8>) -> Option<int> {
    if exists|e: int| is_header_end(buf, e) {
        Some(choose|e: int| is_header_end(buf, e))
    } else {
        None
    }
}

/// `e` is just past the first blank line of `buf`.
pub open spec fn is_header_end(buf: Seq<u8>, e: int) -> bool {
    e >= 4 && blank_line_at(buf, e - 4) && forall|j: int| 0 <= j < e - 4 ==> !blank_line_at(buf, j)
}

proof fn lemma_header_end_unique(buf: Seq<u8>, e: int)
    requires
        e >= 4,
        blank_line_at(buf, e - 4),
        forall|j: int| 0 <= j < e - 4 ==> !blank_line_at(buf, j),
    ensures
        find_header_end_spec(buf) == Some(e),
{
    assert(is_header_end(buf, e));
    let c = choose|c: int| is_header_end(buf, c);
    if c < e {
        assert(!blank_line_at(buf, c - 4));
    } else if c > e {
        assert(!blank_line_at(buf, e - 4));
    }
}

/// The length of the request line: the bytes before the first `\n`.
pub fn request_line_len(buf: &[u8]) -> (r: usize)
    ensures
        r <= buf@.len(),
        r == buf@.len() || buf@[r as int] == 10u8,
        forall|j: int| 0 <= j < r ==> buf@[j] != 10u8,
{
    let mut i: usize = 0;
    while i < buf.len() && buf[i] != 10
        invariant
            i <= buf@.len(),
            forall|j: int| 0 <= j < i ==> buf@[j] != 10u8,
        decreases buf@.len() - i,
    {
        i = i + 1;
    }
    i
}

/// The target of a CONNECT request line: `CONNECT host:port ...` (the verb in
/// any ASCII case) gives the host and the port, 443 when it is absent or not a
/// number. Any other line gives `None`.
pub open spec fn connect_target(line: Seq<char>) -> Option<(Seq<char>, u16)> {
    let fl = trim(line);
    if !(fl.len() >= 8 && eq_ic(fl.subrange(0, 8), "CONNECT "@)) {
        None
    } else {
        let rest = trim(fl.subrange(8, fl.len() as int));
        if rest.len() == 0 {
            None
        } else {
            let auth = before_space(rest);
            let host = before(auth, ':');
            let port = if host.len() < auth.len() {
                match parses_u16(auth.subrange(host.len() + 1int, auth.len() as int)) {
                    Some(p) => p,
                    None => 443u16,
                }
            } else {
                443u16
            };
            Some((host, port))
        }
    }
}

/// Reads the target of a CONNECT request line.
pub fn parse_connect_target(first_line: &str) -> (r: Option<(String, u16)>)
    ensures
        match r {
            Some((h, p)) => connect_target(first_line@) == Some((h@, p)),
            None => connect_target(first_line@) is None,
        },
{
    let fl = trim_str(first_line);
    let n = fl.unicode_len();
    if n < 8 {
        return None;
    }
    if !eq_ignore_case(fl.substring_char(0, 8), "CONNECT ") {
        return None;
    }
    let rest = trim_str(fl.substring_char(8, n));
    if rest.is_empty() {
        return None;
    }
    let auth = before_space_str(rest);
    let m = auth.unicode_len();
    let k = find_char(auth, ':');
    let host = auth.substring_char(0, k);
    let port = if k < m {
        match parse_u16(auth.substring_char(k + 1, m)) {
            Some(p) => p,
            None => 443,
        }
    } else {
        443
    };
    Some((String::from_str(host), port))
}

/// How a CONNECT is served.
#[derive(Clone, Copy, Debug, PartialEq, Eq, Structural)]
pub enum ConnectMode {
    /// Answer `200`, terminate TLS with a minted certificate, and serve the
    /// decrypted requests as HTTPS.
    Intercept,
    /// Connect upstream and copy bytes both ways.
    Tunnel,
}

/// A CONNECT is intercepted when its host goes to a local route (with local
/// routing on) or has logging turned on.
pub open spec fn connect_mode_of(
    host: Seq<char>,
    routes: Seq<LocalRoute>,
    routing_enabled: bool,
    map: Seq<crate::logging::EntryView>,
) -> ConnectMode {
    let routed = routing_enabled && any_match(routes, host_no_port(host));
    let logged = match lookup(map, lower_of(before(host, ':'))) {
        Some(cfg) => cfg.0,
        None => false,
    };
    if routed || logged {
        ConnectMode::Intercept
    } else {
        ConnectMode::Tunnel
    }
}

/// Chooses between interception and a blind tunnel for a CONNECT to `host`.
pub fn connect_mode(host: &str, routes: &[LocalRoute], routing_enabled: bool, map: &LoggingMap) -> (r:
    ConnectMode)
    ensures
        r == connect_mode_of(host@, routes@, routing_enabled, map@),
{
    let routed = if routing_enabled {
        resolve_connect_target(host, routes).is_some()
    } else {
        false
    };
    let logged = match map.get_for_host(crate::text::before_char(host, ':')) {
        Some(cfg) => cfg.0,
        None => false,
    };
    if routed || logged {
        ConnectMode::Intercept
    } else {
        ConnectMode::Tunnel
    }
}

} // verus!
