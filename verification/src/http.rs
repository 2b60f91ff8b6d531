//! The computing half of a toy HTTP server: deciding which page a request
//! gets, and laying out the response around its body. Reading the request
//! and writing the response back belong to whoever owns the connection.

use vstd::prelude::*;

use crate::text::dec_chars;
use crate::text::u64_to_string;

verus! {

/// The request line asking for the root page.
pub open spec fn root_request() -> Seq<char> {
    "GET / HTTP/1.1\r\n"@
}

/// Whether the text begins with the given prefix.
pub open spec fn has_prefix(s: Seq<char>, prefix: Seq<char>) -> bool {
    s.len() >= prefix.len() && s.subrange(0, prefix.len() as int) == prefix
}

/// Whether `s` starts with `prefix`, character by character.
pub fn starts_with_str(s: &str, prefix: &str) -> (r: bool)
    ensures
        r == has_prefix(s@, prefix@),
{
    let n = s.unicode_len();
    let p = prefix.unicode_len();
    if p > n {
        return false;
    }
    let mut i: usize = 0;
    while i < p
        invariant
            n == s@.len(),
            p == prefix@.len(),
            p <= n,
            i <= p,
            forall|k: int| 0 <= k < i ==> s@[k] == prefix@[k],
        decreases p - i,
    {
        if s.get_char(i) != prefix.get_char(i) {
            proof {
                assert(s@.subrange(0, prefix@.len() as int)[i as int] == s@[i as int]);
            }
            return false;
        }
        i += 1;
    }
    proof {
        assert(s@.subrange(0, prefix@.len() as int) =~= prefix@);
    }
    true
}

/// Decides what a request receives: the root page when the request line
/// asks for the root, the error page otherwise. Returns the status line
/// and the name of the file whose contents form the body.
pub fn route_request(request: &str) -> (r: (&'static str, &'static str))
    ensures
        has_prefix(request@, root_request()) ==> r.0@ == "HTTP/1.1 200 OK"@ && r.1@
            == "src/success.html"@,
        !has_prefix(request@, root_request()) ==> r.0@ == "HTTP/1.1 404 NOT FOUND"@ && r.1@
            == "src/error.html"@,
    {
    if starts_with_str(request, "GET / HTTP/1.1\r\n") {
        ("HTTP/1.1 200 OK", "src/success.html")
    } else {
        ("HTTP/1.1 404 NOT FOUND", "src/error.html")
    }
}

/// Lays the response out: the status line, a content-length header giving
/// the byte length of the body, a blank line, and the body.
pub fn build_response(status_line: &str, contents: &str) -> (r: String)
    ensures
        r@ == status_line@ + "\r\nContent-Length: "@ + dec_chars(contents.len() as nat)
            + "\r\n\r\n"@ + contents@,
{
    let mut r = String::new();
    r.append(status_line);
    r.append("\r\nContent-Length: ");
    let len_text = u64_to_string(contents.len() as u64);
    r.append(len_text.as_str());
    r.append("\r\n\r\n");
    r.append(contents);
    proof {
        assert(r@ =~= status_line@ + "\r\nContent-Length: "@ + dec_chars(contents.len() as nat)
            + "\r\n\r\n"@ + contents@);
    }
    r
}

} // verus!
