//! Choosing the one IPv4 address that a scan is aimed at.
//!
//! Text is turned into addresses, and names into lists of addresses, by the
//! caller.  What is decided here is which input counts, which address is
//! taken, and what is wrong where none can be.

use vstd::prelude::*;
use vstd::string::*;
use crate::decimal::append_decimal;
use crate::decimal::decimal;

verus! {

/// The exit code of a run that could not settle on a target.
pub const TARGET_FAILURE_EXIT_CODE: i32 = 1;

/// An IP address of either family, as plain numbers.
#[derive(Clone, Copy, Debug, PartialEq, Eq, Structural)]
pub enum Address {
    V4(u8, u8, u8, u8),
    V6(u128),
}

/// A validated IPv4 address.
#[derive(Clone, Copy, Debug, PartialEq, Eq, Structural)]
pub struct Target {
    pub a: u8,
    pub b: u8,
    pub c: u8,
    pub d: u8,
}

/// Which of the two inputs names the target.
#[derive(Clone, Copy, Debug, PartialEq, Eq, Structural)]
pub enum TargetSource {
    Ip,
    Domain,
}

/// Why there is no target.
#[derive(Clone, Copy, Debug, PartialEq, Eq, Structural)]
pub enum TargetError {
    /// The address given is a valid address, but not of IPv4.
    NotIpv4,
    /// The text given is no IP address.
    InvalidIp,
    /// The domain has addresses, none of them of IPv4.
    NoIpv4Address,
    /// The domain could not be resolved.
    ResolutionFailed,
    /// Neither an address nor a domain was given, or both were.
    NoTarget,
}

/// The target in dotted-quad notation.
pub open spec fn dotted(target: Target) -> Seq<char> {
    decimal(target.a as nat) + "."@ + decimal(target.b as nat) + "."@ + decimal(target.c as nat)
        + "."@ + decimal(target.d as nat)
}

/// The first IPv4 address of a list, if it has one.
pub open spec fn first_v4(addresses: Seq<Address>) -> Option<Target>
    decreases addresses.len(),
{
    if addresses.len() == 0 {
        None
    } else {
        match addresses[0] {
            Address::V4(a, b, c, d) => Some(Target { a, b, c, d }),
            Address::V6(_) => first_v4(addresses.skip(1)),
        }
    }
}

/// What is said to the user about an error; `input` is the address or the
/// domain that was given.
pub open spec fn message_of(error: TargetError, input: Seq<char>) -> Seq<char> {
    match error {
        TargetError::NotIpv4 => "The provided IP address is not an IPv4 address: "@ + input,
        TargetError::InvalidIp => "Invalid IP address provided: "@ + input,
        TargetError::NoIpv4Address => "Failed to resolve domain into IPv4 address: "@ + input,
        TargetError::ResolutionFailed => "Failed to resolve domain: "@ + input,
        TargetError::NoTarget => "Either an IP address (-i or --ip) or Domain Name (-d or --domain) needs to be provided"@,
    }
}

/// Exactly one of the two inputs must be given.
pub fn choose_source(ip: &str, domain: &str) -> (source: Result<TargetSource, TargetError>)
    ensures
        source == if ip@.len() > 0 && domain@.len() == 0 {
            Ok::<TargetSource, TargetError>(TargetSource::Ip)
        } else if domain@.len() > 0 && ip@.len() == 0 {
            Ok::<TargetSource, TargetError>(TargetSource::Domain)
        } else {
            Err::<TargetSource, TargetError>(TargetError::NoTarget)
        },
{
    if !ip.is_empty() && domain.is_empty() {
        Ok(TargetSource::Ip)
    } else if !domain.is_empty() && ip.is_empty() {
        Ok(TargetSource::Domain)
    } else {
        Err(TargetError::NoTarget)
    }
}

/// Judges the address that the user's text was read as; `None` stands for
/// text that is no address.  Only an IPv4 address is a target.
pub fn target_from_ip(parsed: Option<Address>) -> (target: Result<Target, TargetError>)
    ensures
        target == match parsed {
            Some(Address::V4(a, b, c, d)) => Ok::<Target, TargetError>(Target { a, b, c, d }),
            Some(Address::V6(_)) => Err::<Target, TargetError>(TargetError::NotIpv4),
            None => Err::<Target, TargetError>(TargetError::InvalidIp),
        },
{
    match parsed {
        Some(Address::V4(a, b, c, d)) => Ok(Target { a, b, c, d }),
        Some(Address::V6(_)) => Err(TargetError::NotIpv4),
        None => Err(TargetError::InvalidIp),
    }
}

/// Finds the first IPv4 address among those that a name resolved to.
pub fn first_ipv4(addresses: &Vec<Address>) -> (found: Option<Target>)
    ensures
        found == first_v4(addresses@),
        found is None <==> forall|i: int|
            0 <= i < addresses@.len() ==> #[trigger] addresses@[i] is V6,
{
    let mut i: usize = 0;
    assert(addresses@.skip(0) =~= addresses@);
    while i < addresses.len()
        invariant
            i <= addresses@.len(),
            first_v4(addresses@) == first_v4(addresses@.skip(i as int)),
            forall|j: int| 0 <= j < i ==> #[trigger] addresses@[j] is V6,
        decreases addresses@.len() - i,
    {
        proof {
            assert(addresses@.skip(i as int)[0] == addresses@[i as int]);
            assert(addresses@.skip(i as int).skip(1) =~= addresses@.skip(i + 1));
        }
        match addresses[i] {
            Address::V4(a, b, c, d) => {
                assert(addresses@[i as int] is V4);
                return Some(Target { a, b, c, d });
            },
            Address::V6(_) => {},
        }
        i = i + 1;
    }
    None
}

/// Judges what a lookup of the domain gave; `None` stands for a lookup that
/// failed.  The target is the first IPv4 address of the list.
pub fn target_from_lookup(lookup: Option<Vec<Address>>) -> (target: Result<Target, TargetError>)
    ensures
        target == match lookup {
            None => Err::<Target, TargetError>(TargetError::ResolutionFailed),
            Some(addresses) => match first_v4(addresses@) {
                Some(t) => Ok::<Target, TargetError>(t),
                None => Err::<Target, TargetError>(TargetError::NoIpv4Address),
            },
        },
        target == Err::<Target, TargetError>(TargetError::NoIpv4Address) <==> lookup is Some
            && forall|i: int|
            0 <= i < lookup.unwrap()@.len() ==> #[trigger] lookup.unwrap()@[i] is V6,
{
    match lookup {
        None => Err(TargetError::ResolutionFailed),
        Some(addresses) => match first_ipv4(&addresses) {
            Some(t) => Ok(t),
            None => Err(TargetError::NoIpv4Address),
        },
    }
}

impl Target {
    /// The address in dotted-quad notation.
    pub fn text(&self) -> (s: String)
        ensures
            s@ == dotted(*self),
    {
        let mut s = String::new();
        append_decimal(&mut s, self.a as u32);
        s.append(".");
        append_decimal(&mut s, self.b as u32);
        s.append(".");
        append_decimal(&mut s, self.c as u32);
        s.append(".");
        append_decimal(&mut s, self.d as u32);
        assert(s@ =~= dotted(*self));
        s
    }
}

impl TargetError {
    /// The line for the user; `input` is the address or the domain given.
    pub fn message(&self, input: &str) -> (s: String)
        ensures
            s@ == message_of(*self, input@),
    {
        let mut s = String::new();
        match self {
            TargetError::NotIpv4 => {
                s.append("The provided IP address is not an IPv4 address: ");
                s.append(input);
            },
            TargetError::InvalidIp => {
                s.append("Invalid IP address provided: ");
                s.append(input);
            },
            TargetError::NoIpv4Address => {
                s.append("Failed to resolve domain into IPv4 address: ");
                s.append(input);
            },
            TargetError::ResolutionFailed => {
                s.append("Failed to resolve domain: ");
                s.append(input);
            },
            TargetError::NoTarget => {
                s.append(
                    "Either an IP address (-i or --ip) or Domain Name (-d or --domain) needs to be provided",
                );
            },
        }
        assert(s@ =~= message_of(*self, input@));
        s
    }
}

} // verus!
