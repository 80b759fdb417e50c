//! What a taker sends to the maker.

use vstd::prelude::*;

use crate::keys::{PublicKey, SecretKey};
use crate::transaction::{ScriptBuf, Transaction};

verus! {

/// The hash of a preimage.
pub type Hash160 = [u8; 20];

/// A funding transaction, with the scripts and the nonces of the coin that it funds.
pub struct FundingTxInfo {
    pub funding_tx: Transaction,
    pub multisig_redeemscript: ScriptBuf,
    pub multisig_nonce: SecretKey,
    pub contract_redeemscript: ScriptBuf,
    pub hashlock_nonce: SecretKey,
}

/// The claim of a taker that it funded the coins of this hop.
pub struct ProofOfFunding {
    pub confirmed_funding_txes: Vec<FundingTxInfo>,
    /// Lock time of the contracts of the next hop, in blocks.
    pub next_locktime: u16,
}

/// A contract transaction that the maker is asked to sign.
pub struct ContractTxInfoForSender {
    pub multisig_nonce: SecretKey,
    pub hashlock_nonce: SecretKey,
    pub timelock_pubkey: PublicKey,
    pub senders_contract_tx: Transaction,
    pub multisig_redeemscript: ScriptBuf,
    /// Value of the output that the contract transaction spends, in satoshis.
    pub funding_input_value: u64,
}

/// A request for the maker's signatures on the sender's contract transactions.
pub struct ReqContractSigsForSender {
    pub txs_info: Vec<ContractTxInfoForSender>,
    pub hashvalue: Hash160,
    pub locktime: u16,
}

} // verus!
