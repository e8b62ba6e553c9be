//! Routing of a raw request buffer: the one decision the connection handler
//! makes before it turns to I/O.
//!
//! The handler recognizes exactly two request lines, checked in order: the
//! plain root line is served at once, the sleep line is served after a fixed
//! delay, and anything else is answered with the not-found page. Reading the
//! buffer, sleeping, loading the file and writing the response are I/O and
//! stay with the surrounding program; it asks this module which of the three
//! ways to go.

use vstd::prelude::*;
use vstd::seq_lib::*;

verus! {

/// The bytes of `"GET / HTTP/1.1\r\n"`, the request line of the root page.
pub open spec fn root_line() -> Seq<u8> {
    seq![71u8, 69u8, 84u8, 32u8, 47u8, 32u8, 72u8, 84u8, 84u8, 80u8, 47u8, 49u8, 46u8, 49u8, 13u8, 10u8]
}

/// The bytes of `"GET /sleep HTTP/1.1\r\n"`, the request line of the slow
/// page.
pub open spec fn sleep_line() -> Seq<u8> {
    seq![
        71u8,
        69u8,
        84u8,
        32u8,
        47u8,
        115u8,
        108u8,
        101u8,
        101u8,
        112u8,
        32u8,
        72u8,
        84u8,
        84u8,
        80u8,
        47u8,
        49u8,
        46u8,
        49u8,
        13u8,
        10u8,
    ]
}

/// The three ways a request can go: the root page, the root page after a
/// deliberate delay, or the not-found page.
#[derive(PartialEq, Eq, Structural, Clone, Copy, Debug)]
pub enum Request {
    Root,
    Sleep,
    NotFound,
}

/// How a raw buffer is classified: the root line is checked first, then the
/// sleep line, and everything else is not found.
pub open spec fn classify(buf: Seq<u8>) -> Request {
    if root_line().is_prefix_of(buf) {
        Request::Root
    } else if sleep_line().is_prefix_of(buf) {
        Request::Sleep
    } else {
        Request::NotFound
    }
}

/// The bytes of the root request line, as runnable data.
fn root_line_bytes() -> (v: Vec<u8>)
    ensures
        v@ == root_line(),
{
    let mut v: Vec<u8> = Vec::new();
    v.push(71);
    v.push(69);
    v.push(84);
    v.push(32);
    v.push(47);
    v.push(32);
    v.push(72);
    v.push(84);
    v.push(84);
    v.push(80);
    v.push(47);
    v.push(49);
    v.push(46);
    v.push(49);
    v.push(13);
    v.push(10);
    proof {
        assert(v@ =~= root_line());
    }
    v
}

/// The bytes of the sleep request line, as runnable data.
fn sleep_line_bytes() -> (v: Vec<u8>)
    ensures
        v@ == sleep_line(),
{
    let mut v: Vec<u8> = Vec::new();
    v.push(71);
    v.push(69);
    v.push(84);
    v.push(32);
    v.push(47);
    v.push(115);
    v.push(108);
    v.push(101);
    v.push(101);
    v.push(112);
    v.push(32);
    v.push(72);
    v.push(84);
    v.push(84);
    v.push(80);
    v.push(47);
    v.push(49);
    v.push(46);
    v.push(49);
    v.push(13);
    v.push(10);
    proof {
        assert(v@ =~= sleep_line());
    }
    v
}

/// Whether `p` is a prefix of `buf`, byte for byte.
fn has_prefix(buf: &[u8], p: &Vec<u8>) -> (b: bool)
    ensures
        b == p@.is_prefix_of(buf@),
{
    if p.len() > buf.len() {
        proof {
            assert(!p@.is_prefix_of(buf@));
        }
        return false;
    }
    let mut i: usize = 0;
    while i < p.len()
        invariant
            i <= p.len(),
            p.len() <= buf.len(),
            forall|k: int| 0 <= k < i ==> #[trigger] buf@[k] == p@[k],
        decreases p.len() - i,
    {
        if buf[i] != p[i] {
            proof {
                assert(buf@.subrange(0, p@.len() as int)[i as int] != p@[i as int]);
            }
            return false;
        }
        i += 1;
    }
    proof {
        assert(buf@.subrange(0, p@.len() as int) =~= p@);
    }
    true
}

/// Classify a raw request buffer, exactly as the connection handler does:
/// the root line first, then the sleep line, else not found.
pub fn route(buf: &[u8]) -> (r: Request)
    ensures
        r == classify(buf@),
{
    let root = root_line_bytes();
    if has_prefix(buf, &root) {
        return Request::Root;
    }
    let sleep = sleep_line_bytes();
    if has_prefix(buf, &sleep) {
        return Request::Sleep;
    }
    Request::NotFound
}

impl Request {
    /// The status line of the response: the two recognized lines are served
    /// successfully, anything else is answered not found.
    pub fn status_line(&self) -> (s: &'static str)
        ensures
            *self == Request::Root || *self == Request::Sleep ==> s@ == "HTTP/1.1 200 OK"@,
            *self == Request::NotFound ==> s@ == "HTTP/1.1 404 NOT FOUND"@,
    {
        match self {
            Request::Root => "HTTP/1.1 200 OK",
            Request::Sleep => "HTTP/1.1 200 OK",
            Request::NotFound => "HTTP/1.1 404 NOT FOUND",
        }
    }

    /// The file whose contents make the response body.
    pub fn filename(&self) -> (s: &'static str)
        ensures
            *self == Request::Root || *self == Request::Sleep ==> s@ == "index.html"@,
            *self == Request::NotFound ==> s@ == "404.html"@,
    {
        match self {
            Request::Root => "index.html",
            Request::Sleep => "index.html",
            Request::NotFound => "404.html",
        }
    }

    /// How many seconds the handler pauses before answering: five for the
    /// sleep page, none otherwise.
    pub fn delay_seconds(&self) -> (d: u64)
        ensures
            d == (if *self == Request::Sleep {
                5u64
            } else {
                0u64
            }),
    {
        match self {
            Request::Sleep => 5,
            _ => 0,
        }
    }
}

} // verus!
