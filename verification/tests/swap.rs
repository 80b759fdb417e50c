use std::collections::HashMap;

use coinswap_maker::error::MakerError;
use coinswap_maker::funding::{FundingAnswer, FundingQuestion, FundingStage};
use coinswap_maker::keys::{PublicKey, SecretKey};
use coinswap_maker::maker::{Maker, MakerBehavior, MakerConfig};
use coinswap_maker::messages::{
    ContractTxInfoForSender, FundingTxInfo, ProofOfFunding, ReqContractSigsForSender,
};
use coinswap_maker::signing::{SigningAnswer, SigningQuestion};
use coinswap_maker::transaction::{OutPoint, Transaction, TxIn, TxOut};

/// The contract scripts that a wallet remembers, by spent output.
type Memory = HashMap<([u8; 32], u32), Vec<u8>>;

fn maker() -> Maker {
    Maker::init(
        MakerConfig {
            port: 6102,
            onion_addrs: String::from("maker.onion:6102"),
            heart_beat_interval_secs: 3,
            required_confirms: 1,
            min_contract_reaction_time: 48,
        },
        MakerBehavior::Normal,
    )
}

fn key(last: u8) -> SecretKey {
    let mut bytes = [0u8; 32];
    bytes[31] = last;
    SecretKey::from_bytes(bytes).unwrap()
}

fn funding_tx() -> Transaction {
    Transaction { version: 2, lock_time: 77, input: vec![], output: vec![] }
}

/// Has the contract with this script signed for output 3 of the funding transaction.
fn sign(memory: &mut Memory, script: Vec<u8>) {
    let message = ReqContractSigsForSender {
        txs_info: vec![ContractTxInfoForSender {
            multisig_nonce: key(1),
            hashlock_nonce: key(2),
            timelock_pubkey: PublicKey { bytes: vec![3] },
            senders_contract_tx: Transaction {
                version: 2,
                lock_time: 0,
                input: vec![TxIn {
                    previous_output: OutPoint { txid: funding_tx().txid(), vout: 3 },
                    script_sig: vec![],
                    sequence: 0,
                    witness: vec![],
                }],
                output: vec![TxOut { value: 1, script_pubkey: script }],
            },
            multisig_redeemscript: vec![1],
            funding_input_value: 2,
        }],
        hashvalue: [4; 20],
        locktime: 60,
    };
    let mut check = maker().verify_and_sign_contract_tx(&message);
    loop {
        let reply = match check.question() {
            None => break,
            Some(SigningQuestion::DoesPrevoutMatchCachedContract { .. }) => {
                SigningAnswer::PrevoutMatches(true)
            }
            Some(SigningQuestion::GetTweakableKeypair) => SigningAnswer::Keypair {
                secret: key(5),
                pubkey: PublicKey { bytes: vec![2] },
            },
            Some(SigningQuestion::CachePrevoutToContract { prevout, script }) => {
                memory.insert((prevout.txid, prevout.vout), script.clone());
                SigningAnswer::Passed
            }
            Some(SigningQuestion::SignContractTx { .. }) => SigningAnswer::Signature([6; 64]),
            Some(_) => SigningAnswer::Passed,
        };
        check = check.resume(reply);
    }
    assert_eq!(check.into_result().unwrap().unwrap().len(), 1);
}

/// Proves the funding of output 3 with a contract that has this script.
fn prove(memory: &Memory, script: Vec<u8>) -> Result<[u8; 20], MakerError> {
    let message = ProofOfFunding {
        confirmed_funding_txes: vec![FundingTxInfo {
            funding_tx: funding_tx(),
            multisig_redeemscript: vec![1],
            multisig_nonce: key(1),
            contract_redeemscript: vec![2],
            hashlock_nonce: key(2),
        }],
        next_locktime: 20,
    };
    let mut check = maker().verify_proof_of_funding(&message);
    loop {
        let reply = match check.question() {
            None => break,
            Some(FundingQuestion::ReadContractLocktime(_)) => FundingAnswer::Locktime(68),
            Some(FundingQuestion::FindFundingOutputIndex(_)) => FundingAnswer::OutputIndex(3),
            Some(FundingQuestion::GetTxOut { .. }) => FundingAnswer::TxOut(Some(1)),
            Some(FundingQuestion::GetTweakablePubkey) => {
                FundingAnswer::Pubkey(PublicKey { bytes: vec![2] })
            }
            Some(FundingQuestion::RedeemscriptToScriptpubkey(_)) => {
                FundingAnswer::Script(script.clone())
            }
            Some(FundingQuestion::DoesPrevoutMatchCachedContract { prevout, script }) => {
                let kept = memory.get(&(prevout.txid, prevout.vout));
                FundingAnswer::PrevoutMatches(kept.is_none() || kept == Some(script))
            }
            Some(FundingQuestion::CheckHashvaluesAreEqual(_)) => FundingAnswer::HashValue([9; 20]),
            Some(_) => FundingAnswer::Passed,
        };
        check = check.resume(reply);
    }
    match check.stage {
        FundingStage::Done(outcome) => outcome,
        _ => panic!("no outcome"),
    }
}

#[test]
fn funding_with_another_contract_than_the_signed_one_is_refused() {
    let mut memory = Memory::new();
    sign(&mut memory, vec![0, 1]);
    match prove(&memory, vec![0, 2]) {
        Err(MakerError::General(text)) => assert_eq!(
            text,
            "provided contract does not match sender contract tx, rejecting"
        ),
        _ => panic!("not refused"),
    }
}

#[test]
fn funding_with_the_signed_contract_is_accepted() {
    let mut memory = Memory::new();
    sign(&mut memory, vec![0, 1]);
    assert_eq!(prove(&memory, vec![0, 1]).unwrap(), [9; 20]);
}
