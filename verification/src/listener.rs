//! Request handling of the single-shot loopback callback listener.
//!
//! The listener binds `127.0.0.1:<port>`, accepts one connection at a time
//! and reads a bounded buffer from it.  This module holds the verified part
//! of that loop: deciding, from the raw bytes of a connection, whether the
//! connection carries the browser redirect (a `GET` request with an
//! extractable path), what to reply, and what the captured path+query
//! string is.  The socket work itself stays with the I/O shell, which
//! drives [`ListenerState`] one connection at a time.

use vstd::prelude::*;
use vstd::string::*;

verus! {

/// Does the buffer begin with the bytes `GET`?
pub open spec fn starts_with_get(b: Seq<u8>) -> bool {
    b.len() >= 3 && b[0] == 71 && b[1] == 69 && b[2] == 84
}

/// Does the five-byte pattern `GET /` stand at index `i`, followed by at
/// least one byte that is not a space?
pub open spec fn get_marker_at(b: Seq<u8>, i: int) -> bool {
    &&& 0 <= i
    &&& i + 5 < b.len()
    &&& b[i] == 71
    &&& b[i + 1] == 69
    &&& b[i + 2] == 84
    &&& b[i + 3] == 32
    &&& b[i + 4] == 47
    &&& b[i + 5] != 32
}

/// The smallest `j >= i` at which the marker matches, if any.
pub open spec fn first_marker_from(b: Seq<u8>, i: int) -> Option<int>
    decreases b.len() - i when 0 <= i <= b.len()
{
    if i >= b.len() {
        None
    } else if get_marker_at(b, i) {
        Some(i)
    } else {
        first_marker_from(b, i + 1)
    }
}

/// The end of the non-space run that starts at `i`.
pub open spec fn path_end(b: Seq<u8>, i: int) -> int
    decreases b.len() - i when 0 <= i <= b.len()
{
    if i == b.len() {
        i
    } else if b[i] == 32 {
        i
    } else {
        path_end(b, i + 1)
    }
}

/// The captured path+query of the buffer: the maximal non-space run after
/// the first `GET /` marker, if one stands in the buffer.
pub open spec fn request_path_of(b: Seq<u8>) -> Option<Seq<u8>> {
    match first_marker_from(b, 0) {
        Some(i) => Some(b.subrange(i + 5, path_end(b, i + 5))),
        None => None,
    }
}

/// What the listener does with one inbound connection.
#[derive(Debug, Clone, PartialEq, Eq)]
pub enum ConnectionOutcome {
    /// The connection carried the redirect: reply with the acknowledgement
    /// page, close the socket, stop listening, and hand the captured
    /// path+query on.
    Capture(Vec<u8>),
    /// The first bytes were not a `GET` line: read and drop the connection
    /// without a reply, and keep listening.
    Ignore,
    /// The buffer begins with `GET` but no path could be extracted.
    Malformed,
}

proof fn lemma_path_end_bounds(b: Seq<u8>, i: int)
    requires
        0 <= i <= b.len(),
    ensures
        i <= path_end(b, i) <= b.len(),
        forall|m: int| i <= m < path_end(b, i) ==> b[m] != 32,
        path_end(b, i) < b.len() ==> b[path_end(b, i)] == 32,
    decreases b.len() - i,
{
    if i < b.len() && b[i] != 32 {
        lemma_path_end_bounds(b, i + 1);
    }
}

pub(crate) proof fn lemma_path_end_exact(b: Seq<u8>, i: int, j: int)
    requires
        0 <= i <= j <= b.len(),
        forall|m: int| i <= m < j ==> b[m] != 32,
        j < b.len() ==> b[j] == 32,
    ensures
        path_end(b, i) == j,
    decreases j - i,
{
    if i < j {
        lemma_path_end_exact(b, i + 1, j);
    }
}

proof fn lemma_first_marker_skip(b: Seq<u8>, i: int, k: int)
    requires
        0 <= i <= k <= b.len(),
        forall|m: int| i <= m < k ==> !get_marker_at(b, m),
    ensures
        first_marker_from(b, i) == first_marker_from(b, k),
    decreases k - i,
{
    if i < k {
        lemma_first_marker_skip(b, i + 1, k);
    }
}

/// Decides what to do with one connection, from the bytes read off it.
///
/// A buffer that does not begin with `GET` is ignored.  A buffer that does
/// and holds a `GET /` marker followed by a non-space run yields that run,
/// exactly as the listener's single result.  A buffer that begins with
/// `GET` but yields no path is malformed (the I/O shell reports it as a
/// read error).
pub fn handle_connection(buf: &[u8]) -> (r: ConnectionOutcome)
    ensures
        match r {
            ConnectionOutcome::Capture(p) => {
                &&& starts_with_get(buf@)
                &&& request_path_of(buf@) == Some(p@)
            },
            ConnectionOutcome::Ignore => !starts_with_get(buf@),
            ConnectionOutcome::Malformed => starts_with_get(buf@) && request_path_of(buf@)
                is None,
        },
{
    let n = buf.len();
    if n < 3 || buf[0] != 71 || buf[1] != 69 || buf[2] != 84 {
        return ConnectionOutcome::Ignore;
    }
    assert(starts_with_get(buf@));
    let mut i: usize = 0;
    while i < n
        invariant
            n == buf@.len(),
            starts_with_get(buf@),
            i <= n,
            forall|m: int| 0 <= m < i ==> !get_marker_at(buf@, m),
        decreases n - i,
    {
        if n - i > 5 && buf[i] == 71 && buf[i + 1] == 69 && buf[i + 2] == 84 && buf[i + 3]
            == 32 && buf[i + 4] == 47 && buf[i + 5] != 32 {
            assert(get_marker_at(buf@, i as int));
            proof {
                lemma_first_marker_skip(buf@, 0, i as int);
            }
            let start = i + 5;
            let mut j: usize = start;
            while j < n && buf[j] != 32
                invariant
                    n == buf@.len(),
                    start <= j <= n,
                    forall|m: int| start <= m < j ==> buf@[m] != 32,
                decreases n - j,
            {
                j += 1;
            }
            proof {
                lemma_path_end_exact(buf@, start as int, j as int);
            }
            let mut path: Vec<u8> = Vec::new();
            let mut k: usize = start;
            while k < j
                invariant
                    n == buf@.len(),
                    start <= k <= j <= n,
                    path@ == buf@.subrange(start as int, k as int),
                decreases j - k,
            {
                path.push(buf[k]);
                k += 1;
            }
            assert(path@ =~= buf@.subrange(start as int, j as int));
            return ConnectionOutcome::Capture(path);
        }
        assert(!get_marker_at(buf@, i as int));
        i += 1;
    }
    proof {
        lemma_first_marker_skip(buf@, 0, n as int);
    }
    ConnectionOutcome::Malformed
}

/// The fixed reply sent to the one matching connection.
pub fn ack_response() -> (r: &'static str)
    ensures
        r@ == "HTTP/1.1 200 OK\r\n\r\n You can close this window now."@,
{
    "HTTP/1.1 200 OK\r\n\r\n You can close this window now."
}

/// The listener's lifecycle: it accepts connections while `Listening` and
/// stops for good once a single `GET` request has been captured.
#[derive(Debug, Clone, PartialEq, Eq)]
pub enum ListenerState {
    /// Bound and waiting for the browser redirect.
    Listening,
    /// The one matching request arrived; its path+query is held here and
    /// no further connection is accepted.
    Finished(Vec<u8>),
}

/// What the I/O shell must do after feeding one connection to the
/// listener.
#[derive(Debug, Clone, Copy, PartialEq, Eq, Structural)]
pub enum ConnectionReaction {
    /// Write the acknowledgement page, close the socket, stop accepting.
    ReplyAndStop,
    /// Close the socket without a reply and accept the next connection.
    DropAndContinue,
    /// Report a read error: the request began with `GET` but carried no
    /// extractable path.
    Fail,
}

impl ListenerState {
    /// Feeds the bytes of one inbound connection to the listener.
    ///
    /// Exactly one successful `GET` finishes the listener: on a capture
    /// the state moves to `Finished`, holding the captured path+query, and
    /// no further connection is fed in.  A connection whose first bytes
    /// are not `GET` is dropped without a reply and the listener remains
    /// open.  The caller only accepts connections while the state is
    /// `Listening`.
    pub fn on_connection(&mut self, buf: &[u8]) -> (r: ConnectionReaction)
        requires
            *old(self) is Listening,
        ensures
            match r {
                ConnectionReaction::ReplyAndStop => {
                    &&& starts_with_get(buf@)
                    &&& (*final(self)) matches ListenerState::Finished(p) && Some(p@)
                        == request_path_of(buf@)
                },
                ConnectionReaction::DropAndContinue => !starts_with_get(buf@) && *final(self)
                    is Listening,
                ConnectionReaction::Fail => {
                    &&& starts_with_get(buf@)
                    &&& request_path_of(buf@) is None
                    &&& *final(self) is Listening
                },
            },
    {
        match handle_connection(buf) {
            ConnectionOutcome::Capture(p) => {
                *self = ListenerState::Finished(p);
                ConnectionReaction::ReplyAndStop
            },
            ConnectionOutcome::Ignore => ConnectionReaction::DropAndContinue,
            ConnectionOutcome::Malformed => ConnectionReaction::Fail,
        }
    }
}

} // verus!
