use coinswap_maker::keys::SecretKey;
use coinswap_maker::transaction::{OutPoint, Transaction, TxIn, TxOut};

fn scalar(last: u8) -> [u8; 32] {
    let mut bytes = [0u8; 32];
    bytes[31] = last;
    bytes
}

fn order_minus(less: u8) -> [u8; 32] {
    let mut bytes = bitcoin::secp256k1::constants::CURVE_ORDER;
    bytes[31] -= less;
    bytes
}

fn hex(text: &str) -> Vec<u8> {
    let digits = text.as_bytes();
    let mut bytes = Vec::new();
    let mut i = 0;
    while i < digits.len() {
        let pair = std::str::from_utf8(&digits[i..i + 2]).unwrap();
        bytes.push(u8::from_str_radix(pair, 16).unwrap());
        i += 2;
    }
    bytes
}

fn genesis_coinbase() -> Transaction {
    let block = bitcoin::blockdata::constants::genesis_block(bitcoin::Network::Bitcoin);
    let tx = &block.txdata[0];
    Transaction {
        version: tx.version,
        lock_time: tx.lock_time.to_consensus_u32(),
        input: vec![TxIn {
            previous_output: OutPoint { txid: [0; 32], vout: u32::MAX },
            script_sig: tx.input[0].script_sig.to_bytes(),
            sequence: tx.input[0].sequence.0,
            witness: vec![],
        }],
        output: vec![TxOut {
            value: tx.output[0].value,
            script_pubkey: tx.output[0].script_pubkey.to_bytes(),
        }],
    }
}

#[test]
fn secret_keys_lie_between_zero_and_the_order() {
    assert!(SecretKey::from_bytes(scalar(0)).is_none());
    assert!(SecretKey::from_bytes(scalar(1)).is_some());
    assert!(SecretKey::from_bytes(order_minus(1)).is_some());
    assert!(SecretKey::from_bytes(order_minus(0)).is_none());
    assert!(SecretKey::from_bytes([0xff; 32]).is_none());
}

#[test]
fn secret_key_keeps_its_bytes() {
    let bytes = [0xcd; 32];
    assert_eq!(SecretKey::from_bytes(bytes).unwrap().to_bytes(), bytes);
}

#[test]
fn tweak_is_added_modulo_the_order() {
    let one = SecretKey::from_bytes(scalar(1)).unwrap();
    let two = SecretKey::from_bytes(scalar(2)).unwrap();
    let last = SecretKey::from_bytes(order_minus(1)).unwrap();
    assert_eq!(one.add_tweak(&two).unwrap().to_bytes(), scalar(3));
    assert_eq!(last.add_tweak(&two).unwrap().to_bytes(), scalar(1));
}

#[test]
fn vanishing_tweak_is_refused() {
    let one = SecretKey::from_bytes(scalar(1)).unwrap();
    let last = SecretKey::from_bytes(order_minus(1)).unwrap();
    assert!(one.add_tweak(&last).is_none());
    assert!(last.add_tweak(&one).is_none());
}

#[test]
fn public_keys_are_compressed_points() {
    let one = SecretKey::from_bytes(scalar(1)).unwrap();
    assert_eq!(
        one.public_key().bytes,
        hex("0279be667ef9dcbbac55a06295ce870b07029bfcdb2dce28d959f2815b16f81798")
    );
    assert_eq!(
        one.add_tweak(&one).unwrap().public_key().bytes,
        hex("02c6047f9441ed7d6d3045406e95c07cd85c778e4b8cef3ca7abac09b95c709ee5")
    );
}

#[test]
fn txid_of_the_genesis_coinbase() {
    let mut displayed = genesis_coinbase().txid().to_vec();
    displayed.reverse();
    assert_eq!(
        displayed,
        hex("4a5e1e4baab89f3a32518a88c31bc87f618f76673e2cc77ab2127b7afdeda33b")
    );
}

#[test]
fn txid_rests_on_all_but_the_witness() {
    let tx = genesis_coinbase();
    let mut signed = tx.clone();
    signed.input[0].witness.push(vec![1, 2, 3]);
    assert_eq!(signed.txid(), tx.txid());
    let mut other = tx.clone();
    other.lock_time = 1;
    assert_ne!(other.txid(), tx.txid());
    let mut other = tx.clone();
    other.version = 2;
    assert_ne!(other.txid(), tx.txid());
    let mut other = tx.clone();
    other.input[0].sequence = 0;
    assert_ne!(other.txid(), tx.txid());
    let mut other = tx.clone();
    other.input[0].previous_output.vout = 0;
    assert_ne!(other.txid(), tx.txid());
    let mut other = tx.clone();
    other.output[0].value += 1;
    assert_ne!(other.txid(), tx.txid());
    let mut other = tx.clone();
    other.output[0].script_pubkey.push(0);
    assert_ne!(other.txid(), tx.txid());
}

#[test]
fn transactions_are_the_same_field_by_field() {
    let tx = genesis_coinbase();
    assert!(tx.same_as(&tx.clone()));
    let mut other = tx.clone();
    other.input[0].witness.push(vec![]);
    assert!(!tx.same_as(&other));
    let mut other = tx.clone();
    other.input[0].previous_output.txid[31] = 1;
    assert!(!tx.same_as(&other));
    let mut other = tx.clone();
    other.output.push(TxOut { value: 0, script_pubkey: vec![] });
    assert!(!tx.same_as(&other));
    let mut other = tx.clone();
    other.input[0].script_sig[0] += 1;
    assert!(!tx.same_as(&other));
    let mut other = tx.clone();
    other.lock_time = 7;
    assert!(!tx.same_as(&other));
}
