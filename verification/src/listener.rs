//! Where the server listens for control connections.
use vstd::prelude::*;
use vstd::string::*;
use crate::text::{decimal, push_decimal};

verus! {

/// The decimal notation of a signed integer (what `{}` prints).
pub open spec fn signed_decimal(n: int) -> Seq<char> {
    if n < 0 {
        seq!['-'] + decimal((-n) as nat)
    } else {
        decimal(n as nat)
    }
}

/// The socket address text `ip:port` that the server binds.
pub fn listen_address(ip: &str, port: i32) -> (r: String)
    ensures
        r@ == ip@ + ":"@ + signed_decimal(port as int),
{
    let mut r = String::from_str(ip);
    r.append(":");
    if port < 0 {
        r.push('-');
        let magnitude: i64 = -(port as i64);
        push_decimal(&mut r, magnitude as u64);
    } else {
        push_decimal(&mut r, port as u64);
    }
    r
}

} // verus!
