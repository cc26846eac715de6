//! Names of the services that conventionally listen on well-known ports.

use vstd::prelude::*;

verus! {

/// The service that is known for `port`, if any.
pub open spec fn known_service(port: u16) -> Option<Seq<char>> {
    if port == 22 {
        Some("SSH"@)
    } else if port == 80 {
        Some("HTTP"@)
    } else if port == 443 {
        Some("HTTPS"@)
    } else {
        None
    }
}

/// What is printed as the service of `port`: its known service, or
/// `<unknown>`.
pub open spec fn service_label_of(port: u16) -> Seq<char> {
    match known_service(port) {
        Some(name) => name,
        None => "<unknown>"@,
    }
}

/// Looks up the well-known service of a port.
pub fn get_service_by_port(port: u16) -> (name: Option<&'static str>)
    ensures
        name is Some <==> (port == 22 || port == 80 || port == 443),
        match name {
            Some(s) => known_service(port) == Some(s@),
            None => known_service(port) is None,
        },
{
    match port {
        22 => Some("SSH"),
        80 => Some("HTTP"),
        443 => Some("HTTPS"),
        _ => None,
    }
}

/// The service name to print for a port.
pub fn service_label(port: u16) -> (label: &'static str)
    ensures
        label@ == service_label_of(port),
{
    match get_service_by_port(port) {
        Some(name) => name,
        None => "<unknown>",
    }
}

} // verus!
