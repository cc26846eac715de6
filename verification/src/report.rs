//! The text of a scan's report: what is shown while the scan runs and what
//! is written to the report file.

use vstd::prelude::*;
use vstd::string::*;
use crate::decimal::append_decimal;
use crate::decimal::decimal;
use crate::scan::Outcome;
use crate::service::service_label;
use crate::service::service_label_of;
use crate::target::dotted;
use crate::target::Target;

verus! {

/// The first line of a report: the tool and its version.
pub open spec fn banner_of(version: Seq<char>) -> Seq<char> {
    "Starting BadMap "@ + version
}

/// The line that says what was scanned: the domain with the address in
/// brackets where a domain was given, else the address alone.
pub open spec fn target_line_of(domain: Seq<char>, target: Target) -> Seq<char> {
    if domain.len() > 0 {
        "Scan Report for "@ + domain + " ("@ + dotted(target) + ")"@
    } else {
        "Scan Report for "@ + dotted(target)
    }
}

/// The heading of the table of open ports.
pub open spec fn column_header_of() -> Seq<char> {
    "PORT  STATE  SERVICE"@
}

/// The table's line for an open port.
pub open spec fn port_line_of(port: u16) -> Seq<char> {
    decimal(port as nat) + "  open  "@ + service_label_of(port)
}

/// The address that a probe of `port` connects to.
pub open spec fn probe_address_of(target: Target, port: u16) -> Seq<char> {
    dotted(target) + ":"@ + decimal(port as nat)
}

/// The report file is written piece by piece.  The first piece is the
/// banner's line; the second the target's line and a blank line; the third
/// the heading and a blank line; then comes one line for each open port.
pub open spec fn report_piece_of(
    version: Seq<char>,
    domain: Seq<char>,
    target: Target,
    open_ports: Seq<u16>,
    k: int,
) -> Seq<char>
    recommends
        0 <= k < 3 + open_ports.len(),
{
    if k == 0 {
        banner_of(version) + "\n"@
    } else if k == 1 {
        target_line_of(domain, target) + "\n\n"@
    } else if k == 2 {
        column_header_of() + "\n\n"@
    } else {
        port_line_of(open_ports[k - 3]) + "\n"@
    }
}

pub fn banner(version: &str) -> (line: String)
    ensures
        line@ == banner_of(version@),
{
    let mut line = String::new();
    line.append("Starting BadMap ");
    line.append(version);
    assert(line@ =~= banner_of(version@));
    line
}

pub fn target_line(domain: &str, target: &Target) -> (line: String)
    ensures
        line@ == target_line_of(domain@, *target),
{
    let address = target.text();
    let mut line = String::new();
    line.append("Scan Report for ");
    if !domain.is_empty() {
        line.append(domain);
        line.append(" (");
        line.append(address.as_str());
        line.append(")");
    } else {
        line.append(address.as_str());
    }
    assert(line@ =~= target_line_of(domain@, *target));
    line
}

pub fn column_header() -> (line: &'static str)
    ensures
        line@ == column_header_of(),
{
    "PORT  STATE  SERVICE"
}

pub fn port_line(port: u16) -> (line: String)
    ensures
        line@ == port_line_of(port),
{
    let mut line = String::new();
    append_decimal(&mut line, port as u32);
    line.append("  open  ");
    line.append(service_label(port));
    assert(line@ =~= port_line_of(port));
    line
}

/// What is shown when a probe has ended: the table's line for a port that
/// was found open, and nothing for any other.
pub fn progress_line(port: u16, outcome: Outcome) -> (line: Option<String>)
    ensures
        line is Some <==> outcome == Outcome::Open,
        line is Some ==> line.unwrap()@ == port_line_of(port),
{
    match outcome {
        Outcome::Open => Some(port_line(port)),
        Outcome::NotOpen => None,
    }
}

pub fn probe_address(target: &Target, port: u16) -> (address: String)
    ensures
        address@ == probe_address_of(*target, port),
{
    let mut address = target.text();
    address.append(":");
    append_decimal(&mut address, port as u32);
    address
}

/// The pieces of the report file, in the order in which they are written.
pub fn report_pieces(version: &str, domain: &str, target: &Target, open_ports: &Vec<u16>) -> (pieces:
    Vec<String>)
    ensures
        pieces@.len() == 3 + open_ports@.len(),
        forall|k: int|
            0 <= k < pieces@.len() ==> (#[trigger] pieces@[k])@ == report_piece_of(
                version@,
                domain@,
                *target,
                open_ports@,
                k,
            ),
{
    let mut pieces: Vec<String> = Vec::new();
    let mut first = banner(version);
    first.append("\n");
    pieces.push(first);
    let mut second = target_line(domain, target);
    second.append("\n\n");
    pieces.push(second);
    let mut third = String::new();
    third.append(column_header());
    third.append("\n\n");
    assert(third@ =~= column_header_of() + "\n\n"@);
    pieces.push(third);
    let mut i: usize = 0;
    while i < open_ports.len()
        invariant
            i <= open_ports@.len(),
            pieces@.len() == 3 + i,
            forall|k: int|
                0 <= k < pieces@.len() ==> (#[trigger] pieces@[k])@ == report_piece_of(
                    version@,
                    domain@,
                    *target,
                    open_ports@,
                    k,
                ),
        decreases open_ports@.len() - i,
    {
        let mut line = port_line(open_ports[i]);
        line.append("\n");
        pieces.push(line);
        i = i + 1;
    }
    pieces
}

} // verus!
