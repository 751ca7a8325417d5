//! Responses and the bytes written back on the connection.
use vstd::prelude::*;

verus! {

/// A response: a body and a numeric status. Cached responses are handed out
/// as copies.
pub struct Response {
    pub body: String,
    pub status: u32,
}

impl Response {
    pub fn new(body: String, status: u32) -> (r: Response)
        ensures
            r.body == body,
            r.status == status,
    {
        Response { body, status }
    }

    /// The text of the status line and body for this response.
    pub fn to_wire(&self) -> (r: String)
        ensures
            r@ == wire(*self),
    {
        let mut out = String::from_str("HTTP/1.1 ");
        let code = decimal_string(self.status);
        out.append(code.as_str());
        out.append(" OK\r\n\r\n");
        out.append(self.body.as_str());
        out
    }

    /// The text written back when no route matches.
    pub fn not_found_wire() -> (r: String)
        ensures
            r@ == not_found_wire(),
    {
        String::from_str("HTTP/1.1 404 Not Found\r\n\r\nNot Found")
    }
}

impl Clone for Response {
    fn clone(&self) -> (r: Response)
        ensures
            r == *self,
    {
        Response { body: self.body.clone(), status: self.status }
    }
}

/// The decimal digits, in order.
pub open spec fn digit(d: nat) -> Seq<char> {
    "0123456789"@.subrange(d as int, d + 1 as int)
}

/// The decimal notation of `n`, without leading zeros.
pub open spec fn decimal(n: nat) -> Seq<char>
    decreases n,
{
    if n < 10 {
        digit(n)
    } else {
        decimal(n / 10) + digit(n % 10)
    }
}

/// `HTTP/1.1 <status> OK`, a blank line, then the body. The word `OK`
/// stands whatever the status.
pub open spec fn wire(r: Response) -> Seq<char> {
    "HTTP/1.1 "@ + decimal(r.status as nat) + " OK\r\n\r\n"@ + r.body@
}

pub open spec fn not_found_wire() -> Seq<char> {
    "HTTP/1.1 404 Not Found\r\n\r\nNot Found"@
}

/// The decimal notation of `n`.
pub fn decimal_string(n: u32) -> (r: String)
    ensures
        r@ == decimal(n as nat),
    decreases n,
{
    let digits = "0123456789";
    proof {
        reveal_strlit("0123456789");
    }
    let d: usize = (n % 10) as usize;
    let last = digits.substring_char(d, d + 1);
    if n < 10 {
        String::from_str(last)
    } else {
        let mut s = decimal_string(n / 10);
        s.append(last);
        s
    }
}

} // verus!
