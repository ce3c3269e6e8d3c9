use vstd::prelude::*;
use crate::addr::IpAddress;

verus! {

/// What a name lookup gave.
#[derive(Clone, Debug)]
pub enum DnsResultType {
    /// The name of an address.
    Host(String),
    /// The addresses of a name.
    Addr(Vec<IpAddress>),
    /// Why the lookup failed.
    Error(String),
}

/// A lookup of one target as the user wrote it.
#[derive(Clone, Debug)]
pub struct DnsResult {
    pub src: String,
    pub result: DnsResultType,
}

/// The outcome of looking up `src`: an address is looked up in reverse (`reverse`
/// holds what that gave), anything else forwards (`forward` holds what that gave).
pub fn dns_result(
    src: String,
    literal: Option<IpAddress>,
    reverse: Result<String, String>,
    forward: Result<Vec<IpAddress>, String>,
) -> (r: DnsResult)
    ensures
        r.src@ == src@,
        match literal {
            Some(_) => match reverse {
                Ok(name) => r.result matches DnsResultType::Host(h) && h@ == name@,
                Err(e) => r.result matches DnsResultType::Error(m) && m@ == e@,
            },
            None => match forward {
                Ok(list) => r.result matches DnsResultType::Addr(a) && a@ == list@,
                Err(e) => r.result matches DnsResultType::Error(m) && m@ == e@,
            },
        },
{
    let result = match literal {
        Some(_) => match reverse {
            Ok(name) => DnsResultType::Host(name),
            Err(e) => DnsResultType::Error(e),
        },
        None => match forward {
            Ok(list) => DnsResultType::Addr(list),
            Err(e) => DnsResultType::Error(e),
        },
    };
    DnsResult { src, result }
}

} // verus!
