//! What a connection handler decides: which page answers a request, and the
//! bytes of the response that carries it.

use vstd::prelude::*;
use vstd::string::{StringExecFns, StringSliceAdditionalSpecFns};
use crate::text::{decimal, decimal_digits};

verus! {

/// The page that answers a request.
#[derive(Debug, Clone, Copy, PartialEq, Eq, Structural)]
pub enum Route {
    /// The greeting page.
    Hello,
    /// The greeting page, served after a pause.
    SlowHello,
    /// The page for everything else.
    NotFound,
}

/// The route of a request, by the request line that it begins with.
pub open spec fn route_of(request: Seq<u8>) -> Route {
    if "GET / HTTP/1.1\r\n".spec_bytes().is_prefix_of(request) {
        Route::Hello
    } else if "GET /sleep HTTP/1.1\r\n".spec_bytes().is_prefix_of(request) {
        Route::SlowHello
    } else {
        Route::NotFound
    }
}

/// The response that carries `contents` under `status_line`.
pub open spec fn response_of(
    status_line: Seq<char>,
    contents: Seq<char>,
    length: nat,
) -> Seq<char> {
    status_line + "\r\nContent-Length: "@ + decimal_digits(length) + "\r\n\r\n"@ + contents
}

/// Whether `bytes` begins with `prefix`.
pub fn starts_with(bytes: &[u8], prefix: &[u8]) -> (found: bool)
    ensures
        found == prefix@.is_prefix_of(bytes@),
{
    if prefix.len() > bytes.len() {
        return false;
    }
    let mut i: usize = 0;
    while i < prefix.len()
        invariant
            i <= prefix.len() <= bytes.len(),
            forall|j: int| 0 <= j < i ==> prefix@[j] == bytes@[j],
        decreases prefix.len() - i,
    {
        if prefix[i] != bytes[i] {
            assert(prefix@[i as int] != bytes@.subrange(0, prefix@.len() as int)[i as int]);
            return false;
        }
        i = i + 1;
    }
    assert(prefix@ =~= bytes@.subrange(0, prefix@.len() as int));
    true
}

/// Chooses the page for the request that was read into `request`.
pub fn route(request: &[u8]) -> (route: Route)
    ensures
        route == route_of(request@),
{
    if starts_with(request, "GET / HTTP/1.1\r\n".as_bytes()) {
        Route::Hello
    } else if starts_with(request, "GET /sleep HTTP/1.1\r\n".as_bytes()) {
        Route::SlowHello
    } else {
        Route::NotFound
    }
}

impl Route {
    /// The first line of the response.
    pub fn status_line(self) -> (line: &'static str)
        ensures
            line@ == if self is NotFound {
                "HTTP/1.1 404 NOT FOUND"@
            } else {
                "HTTP/1.1 200 OK"@
            },
    {
        match self {
            Route::NotFound => "HTTP/1.1 404 NOT FOUND",
            _ => "HTTP/1.1 200 OK",
        }
    }

    /// The file that holds the page.
    pub fn file_name(self) -> (name: &'static str)
        ensures
            name@ == if self is NotFound {
                "404.html"@
            } else {
                "hello.html"@
            },
    {
        match self {
            Route::NotFound => "404.html",
            _ => "hello.html",
        }
    }

    /// How many seconds the handler waits before it answers.
    pub fn delay_seconds(self) -> (seconds: u64)
        ensures
            seconds == if self is SlowHello {
                5u64
            } else {
                0u64
            },
    {
        match self {
            Route::SlowHello => 5,
            _ => 0,
        }
    }
}

/// Frames `contents` as a response: the status line, the length of the
/// contents in bytes, an empty line, and the contents.
pub fn response(status_line: &str, contents: &str) -> (response: String)
    ensures
        response@ == response_of(status_line@, contents@, contents.len() as nat),
{
    let mut response = String::from_str(status_line);
    response.append("\r\nContent-Length: ");
    let length = decimal(contents.len());
    response.append(length.as_str());
    response.append("\r\n\r\n");
    response.append(contents);
    response
}

} // verus!
