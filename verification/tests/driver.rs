//! The transaction table.

use smiths_sip::txn::{
    cseq_method, parse_status, top_via_sent_by, ClientInviteTxn, ClientNonInviteTxn,
    DriverCommand, Machine, Role, ServerInviteTxn, ServerNonInviteTxn, TimerId, Transaction,
    TransactionDriver, TransactionKey, TransactionState, TuEvent,
};

fn sends(commands: &[DriverCommand]) -> Vec<Vec<u8>> {
    commands
        .iter()
        .filter_map(|c| match c {
            DriverCommand::Send(b) => Some(b.clone()),
            _ => None,
        })
        .collect()
}

fn told(commands: &[DriverCommand]) -> Vec<u16> {
    commands
        .iter()
        .filter_map(|c| match c {
            DriverCommand::Tell(TuEvent::Response { status, .. }) => Some(*status),
            DriverCommand::Tell(TuEvent::Terminated) => Some(0),
            _ => None,
        })
        .collect()
}

fn armed(commands: &[DriverCommand], which: TimerId) -> Option<u64> {
    commands.iter().find_map(|c| match c {
        DriverCommand::Arm { id, after } if *id == which => Some(*after),
        _ => None,
    })
}

fn key(branch: &str, method: &str, role: Role) -> TransactionKey {
    TransactionKey {
        branch: branch.to_owned(),
        method: method.to_owned(),
        role,
    }
}

const BYE: &[u8] = b"BYE sip:alice@127.0.0.1 SIP/2.0\r\nVia: SIP/2.0/UDP 127.0.0.1:0;branch=z9hG4bK-driver-t1\r\nContent-Length: 0\r\n\r\n";

#[test]
fn start_client_sends_request_and_delivers_final_response() {
    let mut driver = TransactionDriver::new(false);
    let txn = ClientNonInviteTxn::new("z9hG4bK-driver-t1", "BYE", BYE.to_vec());
    let k = txn.key().duplicate();
    let commands = driver.start_client(Machine::ClientNonInvite(txn));
    assert_eq!(sends(&commands), vec![BYE.to_vec()]);
    let response = b"SIP/2.0 200 OK\r\nVia: SIP/2.0/UDP 127.0.0.1:0;branch=z9hG4bK-driver-t1\r\nContent-Length: 0\r\n\r\n";
    let commands = driver.on_response(&k, response.to_vec());
    assert_eq!(told(&commands), vec![200]);
    assert_eq!(driver.state(&k), Some(TransactionState::Completed));
}

fn invite(branch: &str) -> Vec<u8> {
    format!(
        "INVITE sip:alice@127.0.0.1 SIP/2.0\r\nVia: SIP/2.0/UDP 127.0.0.1:0;branch={branch}\r\nCSeq: 1 INVITE\r\nContent-Length: 0\r\n\r\n"
    )
    .into_bytes()
}

fn reply(line: &str, branch: &str, method: &str) -> Vec<u8> {
    format!(
        "SIP/2.0 {line}\r\nVia: SIP/2.0/UDP 127.0.0.1:0;branch={branch}\r\nTo: <sip:alice@127.0.0.1>;tag=x\r\nCSeq: 1 {method}\r\nContent-Length: 0\r\n\r\n"
    )
    .into_bytes()
}

#[test]
fn back_to_back_provisional_and_final_both_reach_tu() {
    let mut driver = TransactionDriver::new(false);
    let branch = "z9hG4bK-driver-b2b";
    let k = key(branch, "INVITE", Role::Client);
    driver.start_client(Machine::ClientInvite(ClientInviteTxn::new(
        branch,
        invite(branch),
    )));
    let mut seen = told(&driver.on_response(&k, reply("100 Trying", branch, "INVITE")));
    seen.extend(told(&driver.on_response(&k, reply("200 OK", branch, "INVITE"))));
    assert_eq!(seen, vec![100, 200, 0], "both responses must reach the TU");
    assert!(!driver.is_alive(&k), "2xx terminates the client INVITE FSM");
}

#[test]
fn retransmitted_2xx_is_re_acked_after_transaction_closes() {
    let mut driver = TransactionDriver::new(false);
    let branch = "z9hG4bK-driver-reack";
    let k = key(branch, "INVITE", Role::Client);
    let commands = driver.start_client(Machine::ClientInvite(ClientInviteTxn::new(
        branch,
        invite(branch),
    )));
    assert!(sends(&commands)[0].starts_with(b"INVITE"));
    let ok = reply("200 OK", branch, "INVITE");
    let commands = driver.on_response(&k, ok.clone());
    assert!(commands
        .iter()
        .any(|c| matches!(c, DriverCommand::Release { lingers: true })));
    let ack = b"ACK sip:alice@127.0.0.1 SIP/2.0\r\nCSeq: 1 ACK\r\n\r\n".to_vec();
    driver.register_ack_for_2xx(branch, "127.0.0.1:5060", ack.clone());
    assert!(!driver.is_alive(&k));
    assert!(driver.has_ack_for_2xx(branch));
    for _ in 0..2 {
        let (peer, bytes) = driver
            .answer_2xx(branch, &ok)
            .expect("retransmitted 2xx must be re-ACKed");
        assert_eq!(peer, "127.0.0.1:5060");
        assert_eq!(bytes, ack);
    }
    assert!(driver.answer_2xx(branch, &reply("180 Ringing", branch, "INVITE")).is_none());
    driver.forget_ack(branch);
    assert!(driver.answer_2xx(branch, &ok).is_none());
}

#[test]
fn response_with_foreign_cseq_method_is_not_fed_to_fsm() {
    let mut driver = TransactionDriver::new(false);
    let branch = "z9hG4bK-driver-cseq";
    let k = key(branch, "INVITE", Role::Client);
    driver.start_client(Machine::ClientInvite(ClientInviteTxn::new(
        branch,
        invite(branch),
    )));
    // A 200 to a CANCEL sharing the branch must not terminate the INVITE.
    assert!(driver.on_response(&k, reply("200 OK", branch, "CANCEL")).is_empty());
    let commands = driver.on_response(&k, reply("180 Ringing", branch, "INVITE"));
    assert_eq!(told(&commands), vec![180]);
    assert_eq!(driver.state(&k), Some(TransactionState::Proceeding));
}

#[test]
fn timer_e_retransmits_until_response_arrives() {
    let mut driver = TransactionDriver::new(false);
    let branch = "z9hG4bK-driver-retrans";
    let k = key(branch, "BYE", Role::Client);
    let commands = driver.start_client(Machine::ClientNonInvite(ClientNonInviteTxn::new(
        branch,
        "BYE",
        BYE.to_vec(),
    )));
    assert_eq!(sends(&commands).len(), 1);
    assert_eq!(armed(&commands, TimerId::E), Some(500));
    let commands = driver.fire_timer(&k, TimerId::E);
    assert_eq!(sends(&commands), vec![BYE.to_vec()]);
    assert_eq!(told(&driver.on_response(&k, reply("200 OK", branch, "BYE"))), vec![200]);
    assert!(driver.fire_timer(&k, TimerId::E).is_empty());
}

#[test]
fn start_server_registers_and_sends_response_to_peer() {
    let mut driver = TransactionDriver::new(false);
    let txn = ServerNonInviteTxn::new("z9hG4bK-srv-ni-1", "OPTIONS");
    let k = txn.key().duplicate();
    driver.start_server(Machine::ServerNonInvite(txn));
    assert!(driver.is_alive(&k));
    assert_eq!(driver.state(&k), Some(TransactionState::Trying));
    let response = b"SIP/2.0 200 OK\r\nContent-Length: 0\r\n\r\n".to_vec();
    let commands = driver.send_response(&k, 200, response.clone());
    assert_eq!(sends(&commands), vec![response]);
    assert_eq!(armed(&commands, TimerId::J), Some(32_000));
    assert_eq!(driver.state(&k), Some(TransactionState::Completed));
}

#[test]
fn server_request_retransmit_replays_cached_final() {
    let mut driver = TransactionDriver::new(false);
    let txn = ServerNonInviteTxn::new("z9hG4bK-srv-ni-retrans", "OPTIONS");
    let k = txn.key().duplicate();
    driver.start_server(Machine::ServerNonInvite(txn));
    let response = b"SIP/2.0 404 Not Found\r\nContent-Length: 0\r\n\r\n".to_vec();
    driver.send_response(&k, 404, response.clone());
    let commands = driver.deliver_request(&k, "OPTIONS".into(), Vec::new());
    assert_eq!(sends(&commands), vec![response]);
}

#[test]
fn request_from_different_sent_by_is_not_a_retransmit() {
    let mut driver = TransactionDriver::new(false);
    let txn = ServerNonInviteTxn::new("z9hG4bK-srv-sentby", "OPTIONS");
    let k = txn.key().duplicate();
    driver.start_server_with_sent_by(Machine::ServerNonInvite(txn), "10.0.0.1:5060");
    driver.send_response(
        &k,
        200,
        b"SIP/2.0 200 OK\r\nContent-Length: 0\r\n\r\n".to_vec(),
    );
    let foreign = b"OPTIONS sip:x SIP/2.0\r\nVia: SIP/2.0/UDP 10.0.0.2:5060;branch=z9hG4bK-srv-sentby\r\n\r\n";
    assert!(
        driver.deliver_request(&k, "OPTIONS".into(), foreign.to_vec()).is_empty(),
        "foreign sent-by must not trigger a replay"
    );
    let same = b"OPTIONS sip:x SIP/2.0\r\nVia: SIP/2.0/UDP 10.0.0.1:5060;branch=z9hG4bK-srv-sentby\r\n\r\n";
    assert_eq!(
        sends(&driver.deliver_request(&k, "OPTIONS".into(), same.to_vec())).len(),
        1,
        "matching sent-by must replay the cached final"
    );
}

#[test]
fn metrics_gauge_tracks_server_txn_lifecycle() {
    let mut gauge = 0;
    let mut count = |commands: &[DriverCommand]| {
        for c in commands {
            match c {
                DriverCommand::CountUp => gauge += 1,
                DriverCommand::CountDown => gauge -= 1,
                _ => {}
            }
        }
        gauge
    };
    let mut driver = TransactionDriver::new(false);
    let txn = ServerNonInviteTxn::new("z9hG4bK-metric-1", "OPTIONS");
    let k = txn.key().duplicate();
    assert_eq!(count(&driver.start_server(Machine::ServerNonInvite(txn))), 1);
    assert_eq!(driver.active(), 1);
    let final_response = b"SIP/2.0 200 OK\r\n\r\n".to_vec();
    assert_eq!(count(&driver.send_response(&k, 200, final_response)), 1);
    assert_eq!(count(&driver.fire_timer(&k, TimerId::J)), 0);
    assert!(!driver.is_alive(&k), "FSM should be terminated after timer J");
    assert_eq!(driver.active(), 0);
}

#[test]
fn reliable_transport_skips_retransmits_and_zero_length_timer_k() {
    let mut driver = TransactionDriver::new(true);
    let k = key("z9hG4bK-reliable-Tcp", "OPTIONS", Role::Client);
    let commands = driver.start_client(Machine::ClientNonInvite(ClientNonInviteTxn::new(
        "z9hG4bK-reliable-Tcp",
        "OPTIONS",
        b"OPTIONS sip:peer SIP/2.0\r\n\r\n".to_vec(),
    )));
    assert_eq!(sends(&commands).len(), 1);
    assert_eq!(armed(&commands, TimerId::E), None, "no timer-E retransmits on TCP");
    let commands = driver.on_response(&k, reply("200 OK", "z9hG4bK-reliable-Tcp", "OPTIONS"));
    assert_eq!(told(&commands), vec![200, 0]);
    assert_eq!(
        driver.state(&k),
        None,
        "timer K is zero: the entry is released with the final"
    );
}

#[test]
fn unreliable_transport_retransmits_and_waits_for_timer_k() {
    let mut driver = TransactionDriver::new(false);
    let k = key("z9hG4bK-reliable-Udp", "OPTIONS", Role::Client);
    let first = driver.start_client(Machine::ClientNonInvite(ClientNonInviteTxn::new(
        "z9hG4bK-reliable-Udp",
        "OPTIONS",
        b"OPTIONS sip:peer SIP/2.0\r\n\r\n".to_vec(),
    )));
    // Sent at 0 s, 0.5 s and 1.5 s.
    assert_eq!(armed(&first, TimerId::E), Some(500));
    let second = driver.fire_timer(&k, TimerId::E);
    assert_eq!(armed(&second, TimerId::E), Some(1_000));
    let third = driver.fire_timer(&k, TimerId::E);
    assert_eq!(armed(&third, TimerId::E), Some(2_000));
    let total = sends(&first).len() + sends(&second).len() + sends(&third).len();
    assert_eq!(total, 3);
    let commands = driver.on_response(&k, reply("200 OK", "z9hG4bK-reliable-Udp", "OPTIONS"));
    assert_eq!(told(&commands), vec![200]);
    assert_eq!(armed(&commands, TimerId::K), Some(5_000));
    assert_eq!(driver.state(&k), Some(TransactionState::Completed));
    assert_eq!(told(&driver.fire_timer(&k, TimerId::K)), vec![0]);
}

#[test]
fn parse_status_extracts_code() {
    assert_eq!(parse_status(b"SIP/2.0 200 OK\r\n"), Some(200));
    assert_eq!(parse_status(b"SIP/2.0 401 Unauthorized\r\n"), Some(401));
    assert_eq!(parse_status(b""), None);
    assert_eq!(parse_status(b"not sip\r\n"), None);
}

#[test]
fn messages_name_their_transaction() {
    let m = b"SIP/2.0 200 OK\r\nv: SIP/2.0/UDP 10.0.0.1:5060;branch=b\r\nCSeq: 7 BYE\r\n\r\n";
    assert_eq!(cseq_method(m).as_deref(), Some("BYE"));
    assert_eq!(top_via_sent_by(m).as_deref(), Some("10.0.0.1:5060"));
    assert_eq!(cseq_method(b"SIP/2.0 200 OK\r\n\r\n"), None);
    assert_eq!(top_via_sent_by(b"SIP/2.0 200 OK\r\n\r\n"), None);
}

#[test]
fn events_for_unknown_transactions_do_nothing() {
    let mut driver = TransactionDriver::new(false);
    let k = key("b", "INVITE", Role::Server);
    assert!(driver.fire_timer(&k, TimerId::G).is_empty());
    assert!(driver.send_response(&k, 200, Vec::new()).is_empty());
    assert!(driver.deliver_response(&k, 200, Vec::new()).is_empty());
    assert_eq!(driver.state(&k), None);
}

#[test]
fn transactions_that_share_a_branch_are_kept_apart() {
    let mut driver = TransactionDriver::new(false);
    driver.start_server(Machine::ServerInvite(ServerInviteTxn::new("b")));
    driver.start_server(Machine::ServerNonInvite(ServerNonInviteTxn::new("b", "CANCEL")));
    let cancel = key("b", "CANCEL", Role::Server);
    let inv = key("b", "INVITE", Role::Server);
    driver.send_response(&cancel, 200, b"x".to_vec());
    assert_eq!(driver.state(&cancel), Some(TransactionState::Completed));
    assert_eq!(driver.state(&inv), Some(TransactionState::Proceeding));
    assert!(!driver.is_alive(&key("b", "INVITE", Role::Client)));
}

#[test]
fn reliable_transports_never_arm_retransmissions() {
    let mut driver = TransactionDriver::new(true);
    let commands = driver.start_client(Machine::ClientInvite(ClientInviteTxn::new(
        "b",
        invite("b"),
    )));
    assert_eq!(armed(&commands, TimerId::A), None);
    assert_eq!(armed(&commands, TimerId::B), Some(32_000));
    driver.start_server(Machine::ServerInvite(ServerInviteTxn::new("s")));
    let inv = key("s", "INVITE", Role::Server);
    let commands = driver.send_response(&inv, 486, b"busy".to_vec());
    assert_eq!(armed(&commands, TimerId::G), None);
    assert_eq!(armed(&commands, TimerId::H), Some(32_000));
}
