use coinswap_maker::error::MakerError;
use coinswap_maker::funding::{FundingAnswer, FundingCheck, FundingQuestion, FundingStage};
use coinswap_maker::keys::{PublicKey, SecretKey};
use coinswap_maker::maker::{Maker, MakerBehavior, MakerConfig};
use coinswap_maker::messages::{FundingTxInfo, ProofOfFunding};
use coinswap_maker::transaction::Transaction;

const HASH: [u8; 20] = [9; 20];

fn maker(required_confirms: u64) -> Maker {
    Maker::init(
        MakerConfig {
            port: 6102,
            onion_addrs: String::from("maker.onion:6102"),
            heart_beat_interval_secs: 3,
            required_confirms,
            min_contract_reaction_time: 48,
        },
        MakerBehavior::Normal,
    )
}

fn key(last: u8) -> SecretKey {
    let mut bytes = [0u8; 32];
    bytes[31] = last;
    SecretKey::from_bytes(bytes).unwrap()
}

fn info(tag: u8) -> FundingTxInfo {
    FundingTxInfo {
        funding_tx: Transaction { version: 2, lock_time: tag as u32, input: vec![], output: vec![] },
        multisig_redeemscript: vec![tag, 1],
        multisig_nonce: key(tag),
        contract_redeemscript: vec![tag, 2],
        hashlock_nonce: key(tag + 100),
    }
}

fn message(count: u8) -> ProofOfFunding {
    let mut confirmed_funding_txes = Vec::new();
    for tag in 1..count + 1 {
        confirmed_funding_txes.push(info(tag));
    }
    ProofOfFunding { confirmed_funding_txes, next_locktime: 20 }
}

/// The answer of a world in which everything is in order.
fn good_answer(question: &FundingQuestion<'_>) -> FundingAnswer {
    match question {
        FundingQuestion::ReadContractLocktime(_) => FundingAnswer::Locktime(68),
        FundingQuestion::FindFundingOutputIndex(info) => {
            FundingAnswer::OutputIndex(info.funding_tx.lock_time)
        }
        FundingQuestion::GetTxOut { .. } => FundingAnswer::TxOut(Some(1)),
        FundingQuestion::CheckRedeemscriptIsMultisig(_) => FundingAnswer::Passed,
        FundingQuestion::GetTweakablePubkey => {
            FundingAnswer::Pubkey(PublicKey { bytes: vec![2, 7] })
        }
        FundingQuestion::CheckMultisigHasPubkey { .. } => FundingAnswer::Passed,
        FundingQuestion::CheckHashlockHasPubkey { .. } => FundingAnswer::Passed,
        FundingQuestion::RedeemscriptToScriptpubkey(script) => {
            let mut spk = vec![0, 32];
            spk.extend_from_slice(script);
            FundingAnswer::Script(spk)
        }
        FundingQuestion::DoesPrevoutMatchCachedContract { .. } => {
            FundingAnswer::PrevoutMatches(true)
        }
        FundingQuestion::CheckHashvaluesAreEqual(_) => FundingAnswer::HashValue(HASH),
    }
}

/// Answers question number `bad` with `answer` and every other in good order; returns the outcome
/// and how many questions were asked.
fn run(
    mut check: FundingCheck<'_>,
    bad: usize,
    answer: FundingAnswer,
) -> (Result<[u8; 20], MakerError>, usize) {
    let mut odd = Some(answer);
    let mut asked = 0;
    loop {
        let reply = match check.question() {
            None => break,
            Some(question) => {
                if asked == bad {
                    odd.take().unwrap()
                } else {
                    good_answer(&question)
                }
            }
        };
        asked += 1;
        check = check.resume(reply);
    }
    match check.stage {
        FundingStage::Done(outcome) => (outcome, asked),
        _ => panic!("no outcome"),
    }
}

fn general(outcome: Result<[u8; 20], MakerError>) -> &'static str {
    match outcome {
        Err(MakerError::General(text)) => text,
        _ => panic!("not a general error"),
    }
}

#[test]
fn empty_proof_of_funding_is_refused() {
    let message = message(0);
    let (outcome, asked) = run(maker(1).verify_proof_of_funding(&message), 99, FundingAnswer::Passed);
    assert_eq!(general(outcome), "No funding txs provided by Taker");
    assert_eq!(asked, 0);
}

#[test]
fn good_proof_of_funding_yields_the_hash_value() {
    let message = message(2);
    let (outcome, asked) = run(maker(1).verify_proof_of_funding(&message), 99, FundingAnswer::Passed);
    assert_eq!(outcome.unwrap(), HASH);
    assert_eq!(asked, 19);
}

#[test]
fn locktime_difference_must_reach_the_reaction_time() {
    let message = message(1);
    let check = maker(1).verify_proof_of_funding(&message);
    let (outcome, asked) = run(check, 0, FundingAnswer::Locktime(67));
    assert_eq!(general(outcome), "Next hop locktime too close to current hop locktime");
    assert_eq!(asked, 1);
    let check = maker(1).verify_proof_of_funding(&message);
    let (outcome, _) = run(check, 0, FundingAnswer::Locktime(68));
    assert_eq!(outcome.unwrap(), HASH);
}

#[test]
fn next_hop_locktime_beyond_the_contract_is_refused() {
    let message = message(1);
    for locktime in [0u16, 19, 20] {
        let check = maker(1).verify_proof_of_funding(&message);
        let (outcome, asked) = run(check, 0, FundingAnswer::Locktime(locktime));
        assert_eq!(general(outcome), "Next hop locktime too close to current hop locktime");
        assert_eq!(asked, 1);
    }
}

#[test]
fn funding_must_be_confirmed_deep_enough() {
    let message = message(1);
    let check = maker(3).verify_proof_of_funding(&message);
    let (outcome, asked) = run(check, 2, FundingAnswer::TxOut(Some(2)));
    assert_eq!(general(outcome), "funding tx not confirmed to required depth");
    assert_eq!(asked, 3);
    let check = maker(3).verify_proof_of_funding(&message);
    let (outcome, _) = run(check, 2, FundingAnswer::TxOut(Some(3)));
    assert_eq!(outcome.unwrap(), HASH);
}

#[test]
fn only_low_bits_of_required_confirms_count() {
    let message = message(1);
    let check = maker((1u64 << 32) + 1).verify_proof_of_funding(&message);
    let (outcome, _) = run(check, 2, FundingAnswer::TxOut(Some(1)));
    assert_eq!(outcome.unwrap(), HASH);
    let check = maker((1u64 << 32) + 1).verify_proof_of_funding(&message);
    let (outcome, _) = run(check, 2, FundingAnswer::TxOut(Some(0)));
    assert_eq!(general(outcome), "funding tx not confirmed to required depth");
}

#[test]
fn missing_funding_output_is_refused() {
    let message = message(1);
    let check = maker(1).verify_proof_of_funding(&message);
    let (outcome, asked) = run(check, 2, FundingAnswer::TxOut(None));
    assert_eq!(general(outcome), "funding tx output doesnt exist");
    assert_eq!(asked, 3);
}

#[test]
fn other_cached_contract_is_refused() {
    let message = message(2);
    let check = maker(1).verify_proof_of_funding(&message);
    let (outcome, asked) = run(check, 17, FundingAnswer::PrevoutMatches(false));
    assert_eq!(
        general(outcome),
        "provided contract does not match sender contract tx, rejecting"
    );
    assert_eq!(asked, 18);
}

#[test]
fn failures_stop_the_funding_check_at_once() {
    let message = message(2);
    for step in 0..19 {
        if step == 7 || step == 16 {
            continue;
        }
        let check = maker(1).verify_proof_of_funding(&message);
        let failure = FundingAnswer::Failed(MakerError::Contract(format!("step {}", step)));
        let (outcome, asked) = run(check, step, failure);
        assert_eq!(asked, step + 1);
        match outcome {
            Err(MakerError::Contract(text)) => assert_eq!(text, format!("step {}", step)),
            _ => panic!("the failure is lost"),
        }
    }
}

#[test]
fn questions_name_the_scripts_and_the_funding_output() {
    let message = message(1);
    let info = &message.confirmed_funding_txes[0];
    let txid = info.funding_tx.txid();
    let mut check = maker(1).verify_proof_of_funding(&message);
    let mut step = 0;
    loop {
        let reply = match check.question() {
            None => break,
            Some(question) => {
                match (step, &question) {
                    (0, FundingQuestion::ReadContractLocktime(script)) => {
                        assert_eq!(**script, vec![1, 2])
                    }
                    (1, FundingQuestion::FindFundingOutputIndex(asked)) => {
                        assert_eq!(asked.multisig_redeemscript, vec![1, 1])
                    }
                    (2, FundingQuestion::GetTxOut { outpoint }) => {
                        assert_eq!(outpoint.txid, txid);
                        assert_eq!(outpoint.vout, 1);
                    }
                    (3, FundingQuestion::CheckRedeemscriptIsMultisig(script)) => {
                        assert_eq!(**script, vec![1, 1])
                    }
                    (4, FundingQuestion::GetTweakablePubkey) => {}
                    (5, FundingQuestion::CheckMultisigHasPubkey { redeemscript, pubkey, nonce }) => {
                        assert_eq!(**redeemscript, vec![1, 1]);
                        assert_eq!(pubkey.bytes, vec![2, 7]);
                        assert_eq!(nonce.to_bytes(), key(1).to_bytes());
                    }
                    (6, FundingQuestion::CheckHashlockHasPubkey { redeemscript, pubkey, nonce }) => {
                        assert_eq!(**redeemscript, vec![1, 2]);
                        assert_eq!(pubkey.bytes, vec![2, 7]);
                        assert_eq!(nonce.to_bytes(), key(101).to_bytes());
                    }
                    (7, FundingQuestion::RedeemscriptToScriptpubkey(script)) => {
                        assert_eq!(**script, vec![1, 2])
                    }
                    (8, FundingQuestion::DoesPrevoutMatchCachedContract { prevout, script }) => {
                        assert_eq!(prevout.txid, txid);
                        assert_eq!(prevout.vout, 1);
                        assert_eq!(**script, vec![0, 32, 1, 2]);
                    }
                    (9, FundingQuestion::CheckHashvaluesAreEqual(_)) => {}
                    _ => panic!("unexpected question"),
                }
                good_answer(&question)
            }
        };
        step += 1;
        check = check.resume(reply);
    }
    assert_eq!(step, 10);
}
