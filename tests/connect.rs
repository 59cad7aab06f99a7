use biadne::connect::{Action, BitcoinAdaptor, Event, KeepConnected, PeerAddress, Phase};

fn addr(last: u8, port: u16) -> PeerAddress {
    PeerAddress { ip: 0xffff_0a00_0000u128 | last as u128, port }
}

fn started_pass(mc: &mut KeepConnected) {
    assert_eq!(mc.step_with(Event::Wakeup, 0), Action::AskLocal);
}

#[test]
fn dns_fills_pool_and_retries_after_failures() {
    let a = addr(1, 8333);
    let b = addr(2, 8333);
    let mut mc = BitcoinAdaptor::keep_connected(vec![], 3);
    started_pass(&mut mc);
    assert_eq!(mc.step_with(Event::LocalAddress(None), 0), Action::AskDns);
    // A and B are each used once
    assert_eq!(mc.step_with(Event::DnsAddresses(vec![a, b]), 0), Action::Start(a));
    assert_eq!(mc.step_with(Event::Started, 1), Action::Start(b));
    assert_eq!(mc.pool().len(), 2);
    // both used up: DNS is asked again, and one of its answers is picked
    assert_eq!(mc.step_with(Event::Started, 0), Action::AskDns);
    assert_eq!(mc.step_with(Event::DnsAddresses(vec![a, b]), 1), Action::Start(b));
    assert_eq!(mc.step_with(Event::Started, 0), Action::PollAll);
    assert_eq!(mc.pool(), &vec![a, b, b]);
    assert_eq!(mc.step_with(Event::Polled(None), 0), Action::Wait);
    assert_eq!(mc.phase(), Phase::Idle);

    // the sessions to A and B end with errors, again and again: the manager
    // keeps starting sessions to A and B and never gives up
    for round in 0..10u64 {
        assert_eq!(mc.step_with(Event::Wakeup, 0), Action::PollAll);
        assert_eq!(mc.step_with(Event::Polled(Some(0)), round), Action::AskLocal);
        let mut next = mc.step_with(Event::LocalAddress(None), round);
        if next == Action::AskDns {
            next = mc.step_with(Event::DnsAddresses(vec![a, b]), round);
        }
        assert!(next == Action::Start(a) || next == Action::Start(b));
        assert_eq!(mc.pool().len(), 3);
        assert_eq!(mc.step_with(Event::Started, 0), Action::PollAll);
        assert_eq!(mc.step_with(Event::Polled(None), 0), Action::Wait);
        assert_ne!(mc.phase(), Phase::Exhausted);
    }
}

#[test]
fn random_picks_use_each_dns_address_once() {
    let a = addr(1, 8333);
    let b = addr(2, 18333);
    let mut mc = BitcoinAdaptor::keep_connected(vec![], 3);
    assert_eq!(mc.step(Event::Wakeup), Action::AskLocal);
    assert_eq!(mc.step(Event::LocalAddress(None)), Action::AskDns);
    let first = mc.step(Event::DnsAddresses(vec![a, b]));
    let second = mc.step(Event::Started);
    assert!(first == Action::Start(a) || first == Action::Start(b));
    assert!(second == Action::Start(a) || second == Action::Start(b));
    assert_ne!(first, second);
    assert_eq!(mc.step(Event::Started), Action::AskDns);
    let third = mc.step(Event::DnsAddresses(vec![a, b]));
    assert!(third == Action::Start(a) || third == Action::Start(b));
    assert_eq!(mc.step(Event::Started), Action::PollAll);
    assert_eq!(mc.pool().len(), 3);
}

#[test]
fn exhausted_when_no_source_and_no_session() {
    let mut mc = BitcoinAdaptor::keep_connected(vec![], 3);
    started_pass(&mut mc);
    assert_eq!(mc.step_with(Event::LocalAddress(None), 0), Action::AskDns);
    assert_eq!(mc.step_with(Event::DnsAddresses(vec![]), 0), Action::Exhausted);
    assert_eq!(mc.phase(), Phase::Exhausted);
    assert_eq!(mc.step_with(Event::Wakeup, 0), Action::Wait);
    assert_eq!(mc.phase(), Phase::Exhausted);
}

#[test]
fn exhausted_after_last_session_ends() {
    let a = addr(7, 8333);
    let mut mc = BitcoinAdaptor::keep_connected(vec![a], 1);
    assert_eq!(mc.step_with(Event::Wakeup, 0), Action::PollAll);
    assert_eq!(mc.step_with(Event::Polled(Some(0)), 0), Action::AskLocal);
    assert_eq!(mc.step_with(Event::LocalAddress(None), 0), Action::AskDns);
    assert_eq!(mc.step_with(Event::DnsAddresses(vec![]), 0), Action::Exhausted);
}

#[test]
fn local_source_comes_first() {
    let l = addr(9, 8333);
    let d = addr(3, 8333);
    let mut mc = BitcoinAdaptor::keep_connected(vec![], 2);
    started_pass(&mut mc);
    assert_eq!(mc.step_with(Event::LocalAddress(Some(l)), 0), Action::Start(l));
    assert_eq!(mc.step_with(Event::Started, 0), Action::AskLocal);
    assert_eq!(mc.step_with(Event::LocalAddress(None), 0), Action::AskDns);
    assert_eq!(mc.step_with(Event::DnsAddresses(vec![d]), 0), Action::Start(d));
    assert_eq!(mc.step_with(Event::Started, 0), Action::PollAll);
    assert_eq!(mc.pool(), &vec![l, d]);
}

#[test]
fn initial_peers_seed_the_pool() {
    let a = addr(1, 1);
    let mut mc = BitcoinAdaptor::keep_connected(vec![a, a], 2);
    assert_eq!(mc.pool(), &vec![a, a]);
    assert_eq!(mc.phase(), Phase::Idle);
    assert_eq!(mc.step_with(Event::Wakeup, 0), Action::PollAll);
}

#[test]
fn dns_pick_uses_remainder_of_random() {
    let a = addr(1, 1);
    let b = addr(2, 2);
    let c = addr(3, 3);
    let mut mc = BitcoinAdaptor::keep_connected(vec![], 1);
    started_pass(&mut mc);
    assert_eq!(mc.step_with(Event::LocalAddress(None), 0), Action::AskDns);
    assert_eq!(mc.step_with(Event::DnsAddresses(vec![a, b, c]), 7), Action::Start(b));
}

#[test]
fn unexpected_events_change_nothing() {
    let mut mc = BitcoinAdaptor::keep_connected(vec![addr(1, 1)], 1);
    assert_eq!(mc.step_with(Event::Started, 0), Action::Wait);
    assert_eq!(mc.step_with(Event::Polled(Some(0)), 0), Action::Wait);
    assert_eq!(mc.pool().len(), 1);
    assert_eq!(mc.step_with(Event::Wakeup, 0), Action::PollAll);
    assert_eq!(mc.step_with(Event::Polled(Some(5)), 0), Action::Wait);
    assert_eq!(mc.phase(), Phase::Polling);
    assert_eq!(mc.pool().len(), 1);
}

#[test]
fn adaptor_new() {
    let _adaptor = BitcoinAdaptor::new();
}
