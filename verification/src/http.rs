//! Request matching and response formatting for the toy server that feeds
//! the pool: routes, request-line matching, and the response text.

use vstd::prelude::*;
use vstd::string::StringExecFns;
use vstd::string::StringSliceAdditionalSpecFns;

verus! {

/// One servable route: a method, a path, and the status it answers with.
pub struct Route {
    pub method: String,
    pub path: String,
    pub status: i32,
}

/// The characters of a route's request line, `"{method} {path} HTTP/1.1\r\n"`.
pub open spec fn notation_chars(method: Seq<char>, path: Seq<char>) -> Seq<char> {
    method + " "@ + path + " HTTP/1.1\r\n"@
}

impl Route {
    /// The request line that identifies this route on the wire.
    pub fn get_html_notation(&self) -> (r: String)
        ensures
            r@ == notation_chars(self.method@, self.path@),
    {
        let mut s = String::new();
        s.append(self.method.as_str());
        s.append(" ");
        s.append(self.path.as_str());
        s.append(" HTTP/1.1\r\n");
        s
    }
}

/// The character for one decimal digit.
pub open spec fn digit_char(d: nat) -> char {
    if d == 0 {
        '0'
    } else if d == 1 {
        '1'
    } else if d == 2 {
        '2'
    } else if d == 3 {
        '3'
    } else if d == 4 {
        '4'
    } else if d == 5 {
        '5'
    } else if d == 6 {
        '6'
    } else if d == 7 {
        '7'
    } else if d == 8 {
        '8'
    } else {
        '9'
    }
}

/// The decimal notation of `n`, most significant digit first, no sign and
/// no leading zero (a lone zero for `n == 0`).
pub open spec fn decimal_chars(n: nat) -> Seq<char>
    decreases n,
{
    if n < 10 {
        seq![digit_char(n)]
    } else {
        decimal_chars(n / 10).push(digit_char(n % 10))
    }
}

fn digit_str(d: u64) -> (r: &'static str)
    requires
        d < 10,
    ensures
        r@ =~= seq![digit_char(d as nat)],
{
    proof {
        reveal_strlit("0");
        reveal_strlit("1");
        reveal_strlit("2");
        reveal_strlit("3");
        reveal_strlit("4");
        reveal_strlit("5");
        reveal_strlit("6");
        reveal_strlit("7");
        reveal_strlit("8");
        reveal_strlit("9");
    }
    if d == 0 {
        "0"
    } else if d == 1 {
        "1"
    } else if d == 2 {
        "2"
    } else if d == 3 {
        "3"
    } else if d == 4 {
        "4"
    } else if d == 5 {
        "5"
    } else if d == 6 {
        "6"
    } else if d == 7 {
        "7"
    } else if d == 8 {
        "8"
    } else {
        "9"
    }
}

/// Format `n` in decimal.
pub fn u64_to_string(n: u64) -> (r: String)
    ensures
        r@ =~= decimal_chars(n as nat),
    decreases n,
{
    if n < 10 {
        String::from_str(digit_str(n))
    } else {
        proof {
            assert(n / 10 < n) by (nonlinear_arith)
                requires
                    n >= 10,
            ;
        }
        let mut s = u64_to_string(n / 10);
        s.append(digit_str(n % 10));
        proof {
            assert(decimal_chars((n / 10) as nat).push(digit_char((n % 10) as nat))
                =~= decimal_chars((n / 10) as nat) + seq![digit_char((n % 10) as nat)]);
        }
        s
    }
}

/// The reason phrase for a status code.
pub open spec fn status_text(status: i32) -> Seq<char> {
    if status == 404 {
        "NOT FOUND"@
    } else {
        "OK"@
    }
}

/// The reason phrase sent with `status`: only "NOT FOUND" is
/// distinguished, every other status answers "OK".
pub fn get_status_as_text(status: i32) -> (r: String)
    ensures
        r@ == status_text(status),
{
    if status == 404 {
        return String::from_str("NOT FOUND");
    }
    String::from_str("OK")
}

/// The length in bytes of a text's UTF-8 encoding, as the machine
/// reports it (an encoding held in memory always fits in `usize`).
pub open spec fn byte_len(s: Seq<char>) -> nat {
    (vstd::utf8::encode_utf8(s).len() as usize) as nat
}

/// The characters of the full response: status line, Content-Length
/// header (the body's length in bytes), blank line, body.
pub open spec fn response_chars(contents: Seq<char>, status: i32) -> Seq<char> {
    "HTTP/1.1 "@ + decimal_chars(status as nat) + " "@ + status_text(status)
        + "\r\nContent-Length: "@ + decimal_chars(byte_len(contents)) + "\r\n\r\n"@
        + contents
}

/// Assemble the response text for a body and its status:
/// `"HTTP/1.1 {status} {reason}\r\nContent-Length: {bytes}\r\n\r\n{body}"`.
pub fn get_response(contents: String, status: i32) -> (r: String)
    requires
        0 <= status,
    ensures
        r@ =~= response_chars(contents@, status),
{
    let mut s = String::from_str("HTTP/1.1 ");
    let code = u64_to_string(status as u64);
    s.append(code.as_str());
    s.append(" ");
    let reason = get_status_as_text(status);
    s.append(reason.as_str());
    s.append("\r\nContent-Length: ");
    let body = contents.as_str();
    let body_bytes = body.len();
    proof {
        assert(body.spec_bytes() == vstd::utf8::encode_utf8(body@));
        assert(body_bytes == byte_len(contents@));
    }
    let length = u64_to_string(body_bytes as u64);
    s.append(length.as_str());
    s.append("\r\n\r\n");
    s.append(contents.as_str());
    s
}

/// The fixed-size buffer a request is read into.
pub type Buffer = [u8; 1024];

/// The bytes of a route's request line on the wire.
pub open spec fn notation_bytes(method: Seq<char>, path: Seq<char>) -> Seq<u8> {
    vstd::utf8::encode_utf8(notation_chars(method, path))
}

/// Whether the buffer begins with this route's request line.
pub open spec fn route_matches(r: &Route, buf: Seq<u8>) -> bool {
    let nb = notation_bytes(r.method@, r.path@);
    nb.len() <= buf.len() && buf.take(nb.len() as int) == nb
}

/// The first route, in order, whose request line the buffer begins with.
pub open spec fn first_match(routes: Seq<Route>, buf: Seq<u8>) -> Option<Route>
    decreases routes.len(),
{
    if routes.len() == 0 {
        None
    } else if route_matches(&routes[0], buf) {
        Some(routes[0])
    } else {
        first_match(routes.drop_first(), buf)
    }
}

/// Which file answers a request, with what status, and whether the
/// answer is delayed first: the sleep route simulates a slow job, and an
/// unmatched or absent route falls back to the not-found page.
pub open spec fn plan_chars(route: Option<Route>) -> (Seq<char>, i32, bool) {
    match route {
        Option::Some(r) => {
            if r.method@ == "GET"@ && r.path@ == "/"@ {
                ("hello.html"@, r.status, false)
            } else if r.method@ == "GET"@ && r.path@ == "/hellos/2"@ {
                ("hello2.html"@, r.status, false)
            } else if r.method@ == "GET"@ && r.path@ == "/sleep"@ {
                ("hello2.html"@, r.status, true)
            } else {
                ("404.html"@, 404, false)
            }
        },
        Option::None => ("404.html"@, 404, false),
    }
}

/// Decide how a request is answered: the file to serve, the status to
/// report, and whether to delay first. Reading the file and sleeping are
/// the caller's work.
pub fn plan_response(route: &Option<Route>) -> (r: (String, i32, bool))
    ensures
        r.0@ == plan_chars(*route).0,
        r.1 == plan_chars(*route).1,
        r.2 == plan_chars(*route).2,
{
    match route {
        Option::Some(rt) => {
            let is_get = rt.method == String::from_str("GET");
            if is_get && rt.path == String::from_str("/") {
                (String::from_str("hello.html"), rt.status, false)
            } else if is_get && rt.path == String::from_str("/hellos/2") {
                (String::from_str("hello2.html"), rt.status, false)
            } else if is_get && rt.path == String::from_str("/sleep") {
                (String::from_str("hello2.html"), rt.status, true)
            } else {
                (String::from_str("404.html"), 404, false)
            }
        },
        Option::None => (String::from_str("404.html"), 404, false),
    }
}

fn is_prefix(p: &[u8], b: &[u8]) -> (r: bool)
    ensures
        r == (p@.len() <= b@.len() && b@.take(p@.len() as int) == p@),
{
    if p.len() > b.len() {
        return false;
    }
    let n = p.len();
    let mut i: usize = 0;
    while i < n
        invariant
            i <= n,
            n == p@.len() <= b@.len(),
            forall|k: int| 0 <= k < i ==> p@[k] == b@[k],
        decreases n - i,
    {
        if p[i] != b[i] {
            proof {
                assert(b@.take(p@.len() as int)[i as int] == b@[i as int]);
            }
            return false;
        }
        i = i + 1;
    }
    proof {
        assert(b@.take(p@.len() as int) =~= p@);
    }
    true
}

/// Select the route the buffered request asks for: the first route whose
/// request line is a prefix of the buffer, if any.
pub fn get_route(routes: Vec<Route>, buffer: &Buffer) -> (r: Option<Route>)
    ensures
        r == first_match(routes@, buffer@),
{
    let mut rs = routes;
    let n = rs.len();
    proof {
        assert(rs@.skip(0) =~= rs@);
    }
    let mut idx: usize = 0;
    while idx < n
        invariant
            idx <= n,
            n == rs@.len(),
            rs@ == routes@,
            first_match(routes@, buffer@) == first_match(rs@.skip(idx as int), buffer@),
        decreases n - idx,
    {
        let ghost tail = rs@.skip(idx as int);
        proof {
            assert(tail[0] == rs@[idx as int]);
        }
        let notation = rs[idx].get_html_notation();
        let found = is_prefix(notation.as_str().as_bytes(), buffer.as_slice());
        if found {
            let route = rs.remove(idx);
            return Some(route);
        }
        proof {
            assert(tail.drop_first() =~= rs@.skip(idx as int + 1));
        }
        idx = idx + 1;
    }
    proof {
        assert(rs@.skip(n as int) =~= Seq::<Route>::empty());
    }
    None
}

} // verus!
