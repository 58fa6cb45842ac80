//! The address the network interface of a RIP pipeline serves on.
use crate::text::concat_str;
use vstd::prelude::*;

verus! {

/// The TCP endpoint for `ip` and `port`: `tcp://ip:port`.
pub fn bind_address(ip: &str, port: &str) -> (r: String)
    ensures
        r@ == "tcp://"@ + ip@ + ":"@ + port@,
{
    let a = concat_str("tcp://", ip);
    let b = concat_str(a.as_str(), ":");
    concat_str(b.as_str(), port)
}

} // verus!
