use coinswap_maker::connections::{
    ConnectionState, ExpectedMessage, IncomingSwapCoin, IpAddr, OutgoingSwapCoin,
    IDLE_TIMEOUT_NANOS,
};
use coinswap_maker::idle::check_for_idle_states;
use coinswap_maker::maker::{Maker, MakerBehavior, MakerConfig};
use coinswap_maker::transaction::Transaction;

fn maker() -> Maker {
    Maker::init(
        MakerConfig {
            port: 6102,
            onion_addrs: String::from("maker.onion:6102"),
            heart_beat_interval_secs: 3,
            required_confirms: 1,
            min_contract_reaction_time: 48,
        },
        MakerBehavior::Normal,
    )
}

fn tx(tag: u32) -> Transaction {
    Transaction { version: 2, lock_time: tag, input: vec![], output: vec![] }
}

fn outgoing(tag: u8, signed: bool) -> OutgoingSwapCoin {
    OutgoingSwapCoin {
        multisig_redeemscript: vec![tag, 1],
        signed_contract_tx: if signed { Some(tx(tag as u32)) } else { None },
        timelock: 10 + tag as u16,
    }
}

fn incoming(tag: u8, signed: bool) -> IncomingSwapCoin {
    IncomingSwapCoin {
        multisig_redeemscript: vec![tag, 2],
        signed_contract_tx: if signed { Some(tx(100 + tag as u32)) } else { None },
    }
}

#[test]
fn new_maker_runs_without_connections() {
    let maker = maker();
    assert!(!maker.shutdown);
    assert_eq!(maker.behavior, MakerBehavior::Normal);
    assert_eq!(maker.config.port, 6102);
    assert!(maker.connection_state.get(&IpAddr::V4(1)).is_none());
}

#[test]
fn new_connection_awaits_the_hello() {
    let state = ConnectionState::default();
    assert_eq!(state.allowed_message, ExpectedMessage::TakerHello);
    assert_eq!(ExpectedMessage::default(), ExpectedMessage::TakerHello);
    assert_eq!(state.incoming_swapcoins.len(), 0);
    assert_eq!(state.outgoing_swapcoins.len(), 0);
    assert_eq!(state.pending_funding_txes.len(), 0);
}

#[test]
fn connection_is_dropped_past_the_timeout_only() {
    let mut maker = maker();
    let mut bad_ip = Vec::new();
    maker.connection_state.insert(IpAddr::V4(1), ConnectionState::default(), 1000);
    let dropped = check_for_idle_states(&mut maker, &mut bad_ip, 1000 + IDLE_TIMEOUT_NANOS);
    assert_eq!(dropped.unwrap(), vec![]);
    let dropped = check_for_idle_states(&mut maker, &mut bad_ip, 1001 + IDLE_TIMEOUT_NANOS);
    assert_eq!(dropped.unwrap(), vec![IpAddr::V4(1)]);
    assert_eq!(bad_ip, vec![IpAddr::V4(1)]);
    assert_eq!(IDLE_TIMEOUT_NANOS, 30_000_000_000);
}

#[test]
fn clock_behind_the_connection_counts_as_no_time() {
    let mut maker = maker();
    let mut bad_ip = Vec::new();
    maker.connection_state.insert(IpAddr::V6(7), ConnectionState::default(), u128::MAX);
    let dropped = check_for_idle_states(&mut maker, &mut bad_ip, 0);
    assert_eq!(dropped.unwrap(), vec![]);
}

#[test]
fn dropped_connection_leaves_at_the_next_check_and_stays_banned() {
    let mut maker = maker();
    let mut bad_ip = Vec::new();
    let late = 2 * IDLE_TIMEOUT_NANOS;
    maker.connection_state.insert(IpAddr::V4(1), ConnectionState::default(), 0);
    maker.connection_state.insert(IpAddr::V4(2), ConnectionState::default(), late);
    check_for_idle_states(&mut maker, &mut bad_ip, late);
    assert!(maker.connection_state.get(&IpAddr::V4(1)).is_some());
    let dropped = check_for_idle_states(&mut maker, &mut bad_ip, late).unwrap();
    assert_eq!(dropped, vec![]);
    assert!(maker.connection_state.get(&IpAddr::V4(1)).is_none());
    assert!(maker.connection_state.get(&IpAddr::V4(2)).is_some());
    maker.connection_state.insert(IpAddr::V4(1), ConnectionState::default(), late);
    check_for_idle_states(&mut maker, &mut bad_ip, late);
    assert!(maker.connection_state.get(&IpAddr::V4(1)).is_none());
}

#[test]
fn shutdown_ends_the_checks() {
    let mut maker = maker();
    let mut bad_ip = vec![IpAddr::V4(1)];
    maker.connection_state.insert(IpAddr::V4(1), ConnectionState::default(), 0);
    maker.shutdown();
    assert!(maker.shutdown);
    assert!(check_for_idle_states(&mut maker, &mut bad_ip, u128::MAX).is_none());
    assert!(maker.connection_state.get(&IpAddr::V4(1)).is_some());
    assert_eq!(bad_ip, vec![IpAddr::V4(1)]);
}

#[test]
fn insert_replaces_and_v4_differs_from_v6() {
    let mut maker = maker();
    let mut busy = ConnectionState::default();
    busy.allowed_message = ExpectedMessage::HashPreimage;
    maker.connection_state.insert(IpAddr::V4(1), ConnectionState::default(), 5);
    maker.connection_state.insert(IpAddr::V4(1), busy, 6);
    let entry = maker.connection_state.get(&IpAddr::V4(1)).unwrap();
    assert_eq!(entry.0.allowed_message, ExpectedMessage::HashPreimage);
    assert_eq!(entry.1, 6);
    assert!(maker.connection_state.get(&IpAddr::V6(1)).is_none());
}

#[test]
fn paired_swapcoins_are_broadcast() {
    let state = ConnectionState {
        outgoing_swapcoins: vec![outgoing(1, true), outgoing(2, true), outgoing(3, false)],
        incoming_swapcoins: vec![incoming(1, true), incoming(2, true)],
        ..ConnectionState::default()
    };
    assert_eq!(state.pair_count(), 2);
    assert!(state.is_fully_signed());
    let (outgoings, incomings) = state.contracts_to_broadcast(&vec![tx(201), tx(202)]);
    assert_eq!(outgoings.len(), 2);
    assert_eq!(incomings.len(), 2);
    for i in 0..2u32 {
        let tag = i + 1;
        let ((script, contract), (timelock, spend)) = &outgoings[i as usize];
        assert_eq!(*script, vec![tag as u8, 1]);
        assert!(contract.same_as(&tx(tag)));
        assert_eq!(*timelock, 10 + tag as u16);
        assert!(spend.same_as(&tx(200 + tag)));
        let (script, contract) = &incomings[i as usize];
        assert_eq!(*script, vec![tag as u8, 2]);
        assert!(contract.same_as(&tx(100 + tag)));
    }
}

#[test]
fn unsigned_pair_is_not_fully_signed() {
    let mut state = ConnectionState::default();
    assert!(state.is_fully_signed());
    state.outgoing_swapcoins.push(outgoing(1, true));
    assert!(state.is_fully_signed());
    state.incoming_swapcoins.push(incoming(1, false));
    assert!(!state.is_fully_signed());
}
