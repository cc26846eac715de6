use badmap::limiter::PROBE_LIMIT;
use badmap::scan::{
    classify, probe_result, rehearse, Outcome, PortState, ProbeEvent, Scan, ScanError, Step,
    PORT_COUNT, PROBE_TIMEOUT_SECS,
};
use badmap::service::service_label;

fn mock_prober(port: u16) -> ProbeEvent {
    match port {
        22 | 80 | 443 | 8080 => ProbeEvent::Connected,
        p if p % 3 == 0 => ProbeEvent::TimedOut,
        p if p % 3 == 1 => ProbeEvent::Failed,
        _ => ProbeEvent::Aborted,
    }
}

/// Drives a scan to its end; probes that are under way end newest first.
fn drive(mut scan: Scan, prober: fn(u16) -> ProbeEvent) -> (Scan, usize, usize, usize) {
    let mut under_way: Vec<u16> = Vec::new();
    let mut starts: usize = 0;
    let mut ends: usize = 0;
    let mut peak: usize = 0;
    loop {
        match scan.next_step() {
            Step::Start(port) => {
                starts += 1;
                under_way.push(port);
                assert_eq!(scan.in_flight(), under_way.len());
                if under_way.len() > peak {
                    peak = under_way.len();
                }
            }
            Step::Wait => {
                let port = under_way.pop().unwrap();
                let outcome = scan.complete(port, prober(port)).unwrap();
                assert_eq!(outcome, classify(prober(port)));
                ends += 1;
                assert_eq!(scan.in_flight(), under_way.len());
            }
            Step::Finished => break,
        }
    }
    assert!(under_way.is_empty());
    (scan, starts, ends, peak)
}

#[test]
fn constants_are_as_documented() {
    assert_eq!(PORT_COUNT, 65535);
    assert_eq!(PROBE_LIMIT, 1000);
    assert_eq!(PROBE_TIMEOUT_SECS, 1);
}

#[test]
fn every_port_gets_exactly_one_outcome() {
    let (scan, starts, ends, _) = drive(Scan::new(), mock_prober);
    assert_eq!(starts, 65535);
    assert_eq!(ends, 65535);
    assert!(scan.is_finished());
    assert_eq!(scan.started(), 65535);
    assert_eq!(scan.resolved(), 65535);
    assert_eq!(scan.in_flight(), 0);
    assert_eq!(scan.state_of(0), None);
    for port in 1..=65535u16 {
        let expected = PortState::Resolved(classify(mock_prober(port)));
        assert_eq!(scan.state_of(port), Some(expected));
    }
}

#[test]
fn ports_are_started_in_ascending_order() {
    let mut scan = Scan::new();
    for port in 1..=1000u16 {
        assert_eq!(scan.next_step(), Step::Start(port));
    }
    assert_eq!(scan.next_step(), Step::Wait);
    assert_eq!(scan.in_flight(), 1000);
    assert_eq!(scan.complete(500, ProbeEvent::Failed), Ok(Outcome::NotOpen));
    assert_eq!(scan.in_flight(), 999);
    assert_eq!(scan.resolved(), 1);
    assert_eq!(scan.next_step(), Step::Start(1001));
    assert_eq!(scan.next_step(), Step::Wait);
}

#[test]
fn in_flight_never_exceeds_the_limit() {
    let (scan, _, _, peak) = drive(Scan::new(), mock_prober);
    assert_eq!(scan.limit(), 1000);
    assert_eq!(peak, 1000);
    let (small, starts, _, peak) = drive(Scan::with_limit(7).unwrap(), mock_prober);
    assert_eq!(small.limit(), 7);
    assert_eq!(starts, 65535);
    assert_eq!(peak, 7);
}

#[test]
fn tokens_are_returned_whatever_the_event() {
    let mut scan = Scan::with_limit(4).unwrap();
    let events = [
        ProbeEvent::Connected,
        ProbeEvent::Failed,
        ProbeEvent::TimedOut,
        ProbeEvent::Aborted,
    ];
    for port in 1..=4u16 {
        assert_eq!(scan.next_step(), Step::Start(port));
    }
    assert_eq!(scan.in_flight(), 4);
    assert_eq!(scan.next_step(), Step::Wait);
    for (i, event) in events.iter().enumerate() {
        let port = (i + 1) as u16;
        assert!(scan.complete(port, *event).is_ok());
        assert_eq!(scan.in_flight(), 3 - i);
    }
    let (done, _, _, _) = drive(scan, |_| ProbeEvent::TimedOut);
    assert_eq!(done.in_flight(), 0);
    assert!(done.is_finished());
    assert_eq!(done.open_ports(), vec![1u16]);
}

#[test]
fn mock_prober_gives_the_four_open_ports() {
    let (scan, _, _, _) = drive(Scan::new(), mock_prober);
    let open = scan.open_ports();
    assert_eq!(open, vec![22u16, 80, 443, 8080]);
    let labels: Vec<&str> = open.iter().map(|p| service_label(*p)).collect();
    assert_eq!(labels, vec!["SSH", "HTTP", "HTTPS", "<unknown>"]);
}

#[test]
fn scanning_twice_gives_the_same_open_ports() {
    let (first, _, _, _) = drive(Scan::new(), mock_prober);
    let (second, _, _, _) = drive(Scan::with_limit(13).unwrap(), mock_prober);
    assert_eq!(first.open_ports(), second.open_ports());
    let table: Vec<ProbeEvent> = (1..=65535u16).map(mock_prober).collect();
    assert_eq!(rehearse(1000, &table), Some(first.open_ports()));
    assert_eq!(rehearse(1000, &table), rehearse(1, &table));
}

#[test]
fn rehearse_wants_a_full_table_and_a_limit() {
    let table: Vec<ProbeEvent> = (1..=65535u16).map(mock_prober).collect();
    assert_eq!(rehearse(0, &table), None);
    let short: Vec<ProbeEvent> = vec![ProbeEvent::Connected; 65534];
    assert_eq!(rehearse(1000, &short), None);
    assert_eq!(rehearse(1000, &Vec::new()), None);
    let all_open: Vec<ProbeEvent> = vec![ProbeEvent::Connected; 65535];
    let open = rehearse(1000, &all_open).unwrap();
    assert_eq!(open.len(), 65535);
    assert_eq!(open[0], 1);
    assert_eq!(open[65534], 65535);
    let none_open: Vec<ProbeEvent> = vec![ProbeEvent::TimedOut; 65535];
    assert_eq!(rehearse(1000, &none_open), Some(Vec::new()));
}

#[test]
fn open_ports_grow_as_probes_end() {
    let mut scan = Scan::new();
    assert_eq!(scan.open_ports(), Vec::<u16>::new());
    for _ in 0..100 {
        scan.next_step();
    }
    assert_eq!(scan.complete(80, ProbeEvent::Connected), Ok(Outcome::Open));
    assert_eq!(scan.open_ports(), vec![80u16]);
    assert_eq!(scan.complete(22, ProbeEvent::Connected), Ok(Outcome::Open));
    assert_eq!(scan.complete(23, ProbeEvent::Failed), Ok(Outcome::NotOpen));
    assert_eq!(scan.open_ports(), vec![22u16, 80]);
    assert!(!scan.is_finished());
}

#[test]
fn complete_refuses_what_is_not_under_way() {
    let mut scan = Scan::new();
    assert_eq!(scan.complete(0, ProbeEvent::Connected), Err(ScanError::NoSuchPort));
    assert_eq!(scan.complete(1, ProbeEvent::Connected), Err(ScanError::NotStarted));
    assert_eq!(scan.next_step(), Step::Start(1));
    assert_eq!(scan.state_of(1), Some(PortState::Probing));
    assert_eq!(scan.state_of(2), Some(PortState::Pending));
    assert_eq!(scan.complete(1, ProbeEvent::Connected), Ok(Outcome::Open));
    assert_eq!(scan.complete(1, ProbeEvent::Connected), Err(ScanError::AlreadyResolved));
    assert_eq!(scan.complete(1, ProbeEvent::Failed), Err(ScanError::AlreadyResolved));
    assert_eq!(scan.state_of(1), Some(PortState::Resolved(Outcome::Open)));
    assert_eq!(scan.in_flight(), 0);
    assert_eq!(scan.started(), 1);
    assert_eq!(scan.resolved(), 1);
    assert_eq!(scan.complete(65535, ProbeEvent::Failed), Err(ScanError::NotStarted));
}

#[test]
fn a_scan_needs_a_limit_of_at_least_one() {
    assert!(Scan::with_limit(0).is_none());
    let mut scan = Scan::with_limit(1).unwrap();
    assert_eq!(scan.limit(), 1);
    assert_eq!(scan.next_step(), Step::Start(1));
    assert_eq!(scan.next_step(), Step::Wait);
    assert_eq!(scan.next_step(), Step::Wait);
    assert_eq!(scan.in_flight(), 1);
}

#[test]
fn only_a_connection_counts_as_open() {
    assert_eq!(classify(ProbeEvent::Connected), Outcome::Open);
    assert_eq!(classify(ProbeEvent::Failed), Outcome::NotOpen);
    assert_eq!(classify(ProbeEvent::TimedOut), Outcome::NotOpen);
    assert_eq!(classify(ProbeEvent::Aborted), Outcome::NotOpen);
    assert_eq!(probe_result(443, ProbeEvent::Connected), Some(443));
    assert_eq!(probe_result(443, ProbeEvent::Failed), None);
    assert_eq!(probe_result(443, ProbeEvent::TimedOut), None);
    assert_eq!(probe_result(443, ProbeEvent::Aborted), None);
}
