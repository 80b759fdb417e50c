use std::collections::HashMap;

use coinswap_maker::error::MakerError;
use coinswap_maker::keys::{PublicKey, SecretKey};
use coinswap_maker::maker::{Maker, MakerBehavior, MakerConfig};
use coinswap_maker::messages::{ContractTxInfoForSender, ReqContractSigsForSender};
use coinswap_maker::signing::{Signature, SigningAnswer, SigningCheck, SigningQuestion};
use coinswap_maker::transaction::{OutPoint, Transaction, TxIn, TxOut};

fn maker() -> Maker {
    Maker::init(
        MakerConfig {
            port: 6102,
            onion_addrs: String::from("maker.onion:6102"),
            heart_beat_interval_secs: 3,
            required_confirms: 1,
            min_contract_reaction_time: 48,
        },
        MakerBehavior::CloseOnSignSendersContractTx,
    )
}

fn key(last: u8) -> SecretKey {
    let mut bytes = [0u8; 32];
    bytes[31] = last;
    SecretKey::from_bytes(bytes).unwrap()
}

/// The key that vanishes when `less` is added to it.
fn negative(less: u8) -> SecretKey {
    let mut bytes = bitcoin::secp256k1::constants::CURVE_ORDER;
    bytes[31] -= less;
    SecretKey::from_bytes(bytes).unwrap()
}

fn input(tag: u8) -> TxIn {
    TxIn {
        previous_output: OutPoint { txid: [tag; 32], vout: tag as u32 },
        script_sig: vec![],
        sequence: 0,
        witness: vec![],
    }
}

fn output(tag: u8) -> TxOut {
    TxOut { value: 1000 + tag as u64, script_pubkey: vec![0, tag] }
}

fn info(tag: u8, hashlock_nonce: SecretKey, multisig_nonce: SecretKey) -> ContractTxInfoForSender {
    ContractTxInfoForSender {
        multisig_nonce,
        hashlock_nonce,
        timelock_pubkey: PublicKey { bytes: vec![3, tag] },
        senders_contract_tx: Transaction {
            version: 2,
            lock_time: 0,
            input: vec![input(tag)],
            output: vec![output(tag)],
        },
        multisig_redeemscript: vec![tag, 1],
        funding_input_value: 5000 + tag as u64,
    }
}

fn request(txs_info: Vec<ContractTxInfoForSender>) -> ReqContractSigsForSender {
    ReqContractSigsForSender { txs_info, hashvalue: [4; 20], locktime: 60 }
}

fn two() -> ReqContractSigsForSender {
    request(vec![info(1, key(11), key(21)), info(2, key(12), key(22))])
}

fn good_answer(question: &SigningQuestion<'_>) -> SigningAnswer {
    match question {
        SigningQuestion::DoesPrevoutMatchCachedContract { .. } => {
            SigningAnswer::PrevoutMatches(true)
        }
        SigningQuestion::GetTweakableKeypair => SigningAnswer::Keypair {
            secret: key(5),
            pubkey: PublicKey { bytes: vec![2, 5] },
        },
        SigningQuestion::CheckMultisigHasPubkey { .. } => SigningAnswer::Passed,
        SigningQuestion::IsContractOutValid { .. } => SigningAnswer::Passed,
        SigningQuestion::CachePrevoutToContract { .. } => SigningAnswer::Passed,
        SigningQuestion::SignContractTx { key, .. } => {
            SigningAnswer::Signature([key.to_bytes()[31]; 64])
        }
    }
}

fn run(
    mut check: SigningCheck<'_>,
    bad: usize,
    answer: SigningAnswer,
) -> (Result<Vec<Signature>, MakerError>, usize) {
    let mut odd = Some(answer);
    let mut asked = 0;
    loop {
        let reply = match check.question() {
            None => break,
            Some(question) => {
                if asked == bad {
                    odd.take().unwrap()
                } else {
                    good_answer(&question)
                }
            }
        };
        asked += 1;
        check = check.resume(reply);
    }
    (check.into_result().unwrap(), asked)
}

fn general(outcome: Result<Vec<Signature>, MakerError>) -> &'static str {
    match outcome {
        Err(MakerError::General(text)) => text,
        _ => panic!("not a general error"),
    }
}

#[test]
fn empty_request_yields_no_signatures() {
    let message = request(vec![]);
    let (outcome, asked) =
        run(maker().verify_and_sign_contract_tx(&message), 99, SigningAnswer::Passed);
    assert_eq!(outcome.unwrap().len(), 0);
    assert_eq!(asked, 0);
}

#[test]
fn every_contract_is_signed_by_the_tweaked_key() {
    let message = two();
    let (outcome, asked) =
        run(maker().verify_and_sign_contract_tx(&message), 99, SigningAnswer::Passed);
    let signatures = outcome.unwrap();
    assert_eq!(signatures.len(), 2);
    assert_eq!(signatures[0], [26; 64]);
    assert_eq!(signatures[1], [27; 64]);
    assert_eq!(asked, 12);
}

#[test]
fn contract_must_move_one_coin() {
    let text = "invalid number of inputs or outputs in contract transaction";
    let mut message = two();
    message.txs_info[1].senders_contract_tx.input.push(input(9));
    let (outcome, asked) =
        run(maker().verify_and_sign_contract_tx(&message), 99, SigningAnswer::Passed);
    assert_eq!(general(outcome), text);
    assert_eq!(asked, 6);
    let mut message = two();
    message.txs_info[0].senders_contract_tx.output.clear();
    let (outcome, asked) =
        run(maker().verify_and_sign_contract_tx(&message), 99, SigningAnswer::Passed);
    assert_eq!(general(outcome), text);
    assert_eq!(asked, 0);
}

#[test]
fn second_contract_for_one_output_is_refused() {
    let message = two();
    let check = maker().verify_and_sign_contract_tx(&message);
    let (outcome, asked) = run(check, 6, SigningAnswer::PrevoutMatches(false));
    assert_eq!(general(outcome), "taker attempting multiple contract attack, rejecting");
    assert_eq!(asked, 7);
}

#[test]
fn vanishing_hashlock_key_is_refused() {
    let message = request(vec![info(1, negative(5), key(21))]);
    let (outcome, asked) =
        run(maker().verify_and_sign_contract_tx(&message), 99, SigningAnswer::Passed);
    assert!(matches!(outcome, Err(MakerError::Secp)));
    assert_eq!(asked, 3);
}

#[test]
fn vanishing_multisig_key_is_refused_after_caching() {
    let message = request(vec![info(1, key(11), negative(5))]);
    let (outcome, asked) =
        run(maker().verify_and_sign_contract_tx(&message), 99, SigningAnswer::Passed);
    assert!(matches!(outcome, Err(MakerError::Secp)));
    assert_eq!(asked, 5);
}

#[test]
fn failures_stop_the_signing_at_once() {
    let message = two();
    for step in 0..12 {
        let check = maker().verify_and_sign_contract_tx(&message);
        let failure = SigningAnswer::Failed(MakerError::Wallet(format!("step {}", step)));
        let (outcome, asked) = run(check, step, failure);
        assert_eq!(asked, step + 1);
        match outcome {
            Err(MakerError::Wallet(text)) => assert_eq!(text, format!("step {}", step)),
            _ => panic!("the failure is lost"),
        }
    }
}

#[test]
fn signing_questions_name_the_contract() {
    let message = two();
    let mut check = maker().verify_and_sign_contract_tx(&message);
    assert!(maker().verify_and_sign_contract_tx(&message).into_result().is_none());
    let mut step = 0;
    loop {
        let reply = match check.question() {
            None => break,
            Some(question) => {
                let tag = (step / 6 + 1) as u8;
                match (step % 6, &question) {
                    (0, SigningQuestion::DoesPrevoutMatchCachedContract { prevout, script }) => {
                        assert_eq!(prevout.txid, [tag; 32]);
                        assert_eq!(prevout.vout, tag as u32);
                        assert_eq!(**script, vec![0, tag]);
                    }
                    (1, SigningQuestion::GetTweakableKeypair) => {}
                    (2, SigningQuestion::CheckMultisigHasPubkey { redeemscript, pubkey, nonce }) => {
                        assert_eq!(**redeemscript, vec![tag, 1]);
                        assert_eq!(pubkey.bytes, vec![2, 5]);
                        assert_eq!(nonce.to_bytes(), key(20 + tag).to_bytes());
                    }
                    (
                        3,
                        SigningQuestion::IsContractOutValid {
                            output,
                            hashlock_pubkey,
                            timelock_pubkey,
                            hashvalue,
                            locktime,
                            min_contract_reaction_time,
                        },
                    ) => {
                        assert_eq!(output.value, 1000 + tag as u64);
                        assert_eq!(hashlock_pubkey.bytes, key(15 + tag).public_key().bytes);
                        assert_eq!(timelock_pubkey.bytes, vec![3, tag]);
                        assert_eq!(**hashvalue, [4; 20]);
                        assert_eq!(*locktime, 60);
                        assert_eq!(*min_contract_reaction_time, 48);
                    }
                    (4, SigningQuestion::CachePrevoutToContract { prevout, script }) => {
                        assert_eq!(prevout.txid, [tag; 32]);
                        assert_eq!(**script, vec![0, tag]);
                    }
                    (
                        5,
                        SigningQuestion::SignContractTx {
                            tx,
                            redeemscript,
                            funding_input_value,
                            key: signing_key,
                        },
                    ) => {
                        assert!(tx.same_as(&message.txs_info[step / 6].senders_contract_tx));
                        assert_eq!(**redeemscript, vec![tag, 1]);
                        assert_eq!(*funding_input_value, 5000 + tag as u64);
                        assert_eq!(signing_key.to_bytes(), key(25 + tag).to_bytes());
                    }
                    _ => panic!("unexpected question"),
                }
                good_answer(&question)
            }
        };
        step += 1;
        check = check.resume(reply);
    }
    assert_eq!(step, 12);
}

/// The contract scripts that a wallet remembers, by spent output.
type Memory = HashMap<([u8; 32], u32), Vec<u8>>;

/// Works a request through against the memory of a wallet.
fn remembered(
    memory: &mut Memory,
    message: &ReqContractSigsForSender,
) -> Result<Vec<Signature>, MakerError> {
    let mut check = maker().verify_and_sign_contract_tx(message);
    loop {
        let reply = match check.question() {
            None => break,
            Some(SigningQuestion::DoesPrevoutMatchCachedContract { prevout, script }) => {
                let kept = memory.get(&(prevout.txid, prevout.vout));
                SigningAnswer::PrevoutMatches(kept.is_none() || kept == Some(script))
            }
            Some(SigningQuestion::CachePrevoutToContract { prevout, script }) => {
                memory.insert((prevout.txid, prevout.vout), script.clone());
                SigningAnswer::Passed
            }
            Some(question) => good_answer(&question),
        };
        check = check.resume(reply);
    }
    check.into_result().unwrap()
}

fn with_script(mut info: ContractTxInfoForSender, script: Vec<u8>) -> ContractTxInfoForSender {
    info.senders_contract_tx.output[0].script_pubkey = script;
    info
}

#[test]
fn other_contract_for_a_signed_output_is_refused() {
    let attack = "taker attempting multiple contract attack, rejecting";
    let mut memory = Memory::new();
    remembered(&mut memory, &two()).unwrap();
    let kept = memory.clone();
    let other = request(vec![with_script(info(2, key(12), key(22)), vec![0, 99])]);
    assert_eq!(general(remembered(&mut memory, &other)), attack);
    assert_eq!(memory, kept);
    assert_eq!(memory[&([2; 32], 2)], vec![0, 2]);
}

#[test]
fn other_contract_within_one_request_is_refused() {
    let mut memory = Memory::new();
    let both = request(vec![
        info(1, key(11), key(21)),
        with_script(info(1, key(11), key(21)), vec![0, 99]),
    ]);
    assert_eq!(
        general(remembered(&mut memory, &both)),
        "taker attempting multiple contract attack, rejecting"
    );
    assert_eq!(memory[&([1; 32], 1)], vec![0, 1]);
}

#[test]
fn identical_retry_yields_the_same_signatures() {
    let mut memory = Memory::new();
    let first = remembered(&mut memory, &two()).unwrap();
    let kept = memory.clone();
    let again = remembered(&mut memory, &two()).unwrap();
    assert_eq!(first, again);
    assert_eq!(memory, kept);
}

#[test]
fn joined_request_is_one_behind_the_other() {
    let mut memory = Memory::new();
    let joined = remembered(&mut memory, &two()).unwrap();
    let mut apart = Memory::new();
    let mut signatures =
        remembered(&mut apart, &request(vec![info(1, key(11), key(21))])).unwrap();
    signatures.extend(remembered(&mut apart, &request(vec![info(2, key(12), key(22))])).unwrap());
    assert_eq!(joined, signatures);
    assert_eq!(memory, apart);
}
