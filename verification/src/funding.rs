//! Checking a proof of funding.
//!
//! The check asks one question after the other, of the contract scripts, of the node and of the
//! wallet, and each answer moves it on. It stops at the first answer that breaks a rule.

use vstd::prelude::*;

use crate::error::MakerError;
use crate::keys::{PublicKey, SecretKey};
use crate::messages::{FundingTxInfo, Hash160, ProofOfFunding};
use crate::transaction::{OutPoint, ScriptBuf};

verus! {

/// What the check waits for.
pub enum FundingStage {
    /// The lock time in the contract script.
    ContractLocktime,
    /// The output of the funding transaction that pays the multisig.
    OutputIndex,
    /// The node's view of that output.
    TxOut { vout: u32 },
    /// Whether the multisig script has the right shape.
    MultisigScript { vout: u32 },
    /// The maker's tweakable public key.
    TweakablePubkey { vout: u32 },
    /// Whether the multisig script holds the maker's key.
    MultisigPubkey { vout: u32, pubkey: PublicKey },
    /// Whether the hashlock of the contract script holds the maker's key.
    HashlockPubkey { vout: u32, pubkey: PublicKey },
    /// The script that an output locked to the contract script carries.
    ContractScript { vout: u32 },
    /// Whether the wallet knows no other contract for the funding output.
    CachedContract { vout: u32, script: ScriptBuf },
    /// The hash value that all contracts share.
    HashValue,
    /// Nothing more.
    Done(Result<Hash160, MakerError>),
}

/// A question of the check.
pub enum FundingQuestion<'a> {
    ReadContractLocktime(&'a ScriptBuf),
    FindFundingOutputIndex(&'a FundingTxInfo),
    /// Ask the node for an unspent output.
    GetTxOut { outpoint: OutPoint },
    CheckRedeemscriptIsMultisig(&'a ScriptBuf),
    GetTweakablePubkey,
    CheckMultisigHasPubkey {
        redeemscript: &'a ScriptBuf,
        pubkey: &'a PublicKey,
        nonce: &'a SecretKey,
    },
    CheckHashlockHasPubkey {
        redeemscript: &'a ScriptBuf,
        pubkey: &'a PublicKey,
        nonce: &'a SecretKey,
    },
    RedeemscriptToScriptpubkey(&'a ScriptBuf),
    DoesPrevoutMatchCachedContract { prevout: OutPoint, script: &'a ScriptBuf },
    CheckHashvaluesAreEqual(&'a ProofOfFunding),
}

/// An answer to a question of the check.
pub enum FundingAnswer {
    Locktime(u16),
    OutputIndex(u32),
    /// The confirmations of the output, or `None` where no such unspent output exists.
    TxOut(Option<u32>),
    /// The script asked about is in order.
    Passed,
    Pubkey(PublicKey),
    Script(ScriptBuf),
    PrevoutMatches(bool),
    HashValue(Hash160),
    /// Whoever was asked failed, or refused.
    Failed(MakerError),
}

/// A proof of funding under examination.
pub struct FundingCheck<'m> {
    pub message: &'m ProofOfFunding,
    /// Blocks that the maker wants between the lock times of two hops.
    pub min_contract_reaction_time: u16,
    /// Confirmations that a funding transaction needs; the low 32 bits count.
    pub required_confirms: u64,
    /// The funding transaction under examination.
    pub position: usize,
    pub stage: FundingStage,
}

impl<'m> FundingCheck<'m> {
    /// While something is awaited of a funding transaction, there is that transaction; the shared
    /// hash value is awaited only behind the last.
    pub open spec fn well_formed(self) -> bool {
        match self.stage {
            FundingStage::HashValue => self.position == self.message.confirmed_funding_txes.len(),
            FundingStage::Done(_) => self.position <= self.message.confirmed_funding_txes.len(),
            _ => self.position < self.message.confirmed_funding_txes.len(),
        }
    }

    /// The funding transaction under examination.
    pub open spec fn current(self) -> FundingTxInfo {
        self.message.confirmed_funding_txes@[self.position as int]
    }

    /// The output of the current funding transaction at `vout`.
    pub open spec fn funding_output(self, vout: u32) -> OutPoint {
        OutPoint { txid: self.current().funding_tx@.txid(), vout }
    }

    /// The check before its first question. A message without funding transactions has no
    /// questions to it.
    pub open spec fn start(
        message: &'m ProofOfFunding,
        min_contract_reaction_time: u16,
        required_confirms: u64,
    ) -> FundingCheck<'m> {
        FundingCheck {
            message,
            min_contract_reaction_time,
            required_confirms,
            position: 0,
            stage: if message.confirmed_funding_txes.len() == 0 {
                FundingStage::Done(Err(MakerError::General("No funding txs provided by Taker")))
            } else {
                FundingStage::ContractLocktime
            },
        }
    }

    /// The question that is open, `None` when the check is done.
    pub open spec fn open_question(self) -> Option<FundingQuestion<'m>> {
        match self.stage {
            FundingStage::ContractLocktime => Some(
                FundingQuestion::ReadContractLocktime(&self.current().contract_redeemscript),
            ),
            FundingStage::OutputIndex => Some(
                FundingQuestion::FindFundingOutputIndex(&self.current()),
            ),
            FundingStage::TxOut { vout } => Some(
                FundingQuestion::GetTxOut { outpoint: self.funding_output(vout) },
            ),
            FundingStage::MultisigScript { .. } => Some(
                FundingQuestion::CheckRedeemscriptIsMultisig(&self.current().multisig_redeemscript),
            ),
            FundingStage::TweakablePubkey { .. } => Some(FundingQuestion::GetTweakablePubkey),
            FundingStage::MultisigPubkey { pubkey, .. } => Some(
                FundingQuestion::CheckMultisigHasPubkey {
                    redeemscript: &self.current().multisig_redeemscript,
                    pubkey: &pubkey,
                    nonce: &self.current().multisig_nonce,
                },
            ),
            FundingStage::HashlockPubkey { pubkey, .. } => Some(
                FundingQuestion::CheckHashlockHasPubkey {
                    redeemscript: &self.current().contract_redeemscript,
                    pubkey: &pubkey,
                    nonce: &self.current().hashlock_nonce,
                },
            ),
            FundingStage::ContractScript { .. } => Some(
                FundingQuestion::RedeemscriptToScriptpubkey(&self.current().contract_redeemscript),
            ),
            FundingStage::CachedContract { vout, script } => Some(
                FundingQuestion::DoesPrevoutMatchCachedContract {
                    prevout: self.funding_output(vout),
                    script: &script,
                },
            ),
            FundingStage::HashValue => Some(FundingQuestion::CheckHashvaluesAreEqual(self.message)),
            FundingStage::Done(_) => None,
        }
    }

    /// Whether `answer` answers the open question.
    pub open spec fn accepts(self, answer: FundingAnswer) -> bool {
        match (self.stage, answer) {
            (FundingStage::Done(_), _) => false,
            (FundingStage::ContractScript { .. }, FundingAnswer::Script(_)) => true,
            (FundingStage::ContractScript { .. }, _) => false,
            (_, FundingAnswer::Failed(_)) => true,
            (FundingStage::ContractLocktime, FundingAnswer::Locktime(_)) => true,
            (FundingStage::OutputIndex, FundingAnswer::OutputIndex(_)) => true,
            (FundingStage::TxOut { .. }, FundingAnswer::TxOut(_)) => true,
            (FundingStage::MultisigScript { .. }, FundingAnswer::Passed) => true,
            (FundingStage::TweakablePubkey { .. }, FundingAnswer::Pubkey(_)) => true,
            (FundingStage::MultisigPubkey { .. }, FundingAnswer::Passed) => true,
            (FundingStage::HashlockPubkey { .. }, FundingAnswer::Passed) => true,
            (FundingStage::CachedContract { .. }, FundingAnswer::PrevoutMatches(_)) => true,
            (FundingStage::HashValue, FundingAnswer::HashValue(_)) => true,
            _ => false,
        }
    }

    /// The check at another stage of the same funding transaction.
    pub open spec fn at(self, stage: FundingStage) -> FundingCheck<'m> {
        FundingCheck { stage, ..self }
    }

    /// The check stopped by an error.
    pub open spec fn refused(self, error: MakerError) -> FundingCheck<'m> {
        self.at(FundingStage::Done(Err(error)))
    }

    /// The check behind the current funding transaction, which passed.
    pub open spec fn passed_current(self) -> FundingCheck<'m> {
        FundingCheck {
            position: (self.position + 1) as usize,
            stage: if self.position + 1 < self.message.confirmed_funding_txes.len() {
                FundingStage::ContractLocktime
            } else {
                FundingStage::HashValue
            },
            ..self
        }
    }

    /// The check once the open question is answered.
    pub open spec fn after(self, answer: FundingAnswer) -> FundingCheck<'m> {
        match (self.stage, answer) {
            (_, FundingAnswer::Failed(error)) => self.refused(error),
            (FundingStage::ContractLocktime, FundingAnswer::Locktime(locktime)) => if locktime
                - self.message.next_locktime < self.min_contract_reaction_time {
                self.refused(
                    MakerError::General("Next hop locktime too close to current hop locktime"),
                )
            } else {
                self.at(FundingStage::OutputIndex)
            },
            (FundingStage::OutputIndex, FundingAnswer::OutputIndex(vout)) => self.at(
                FundingStage::TxOut { vout },
            ),
            (FundingStage::TxOut { vout }, FundingAnswer::TxOut(output)) => match output {
                Some(confirmations) => if confirmations < self.required_confirms
                    % 0x1_0000_0000 {
                    self.refused(MakerError::General("funding tx not confirmed to required depth"))
                } else {
                    self.at(FundingStage::MultisigScript { vout })
                },
                None => self.refused(MakerError::General("funding tx output doesnt exist")),
            },
            (FundingStage::MultisigScript { vout }, FundingAnswer::Passed) => self.at(
                FundingStage::TweakablePubkey { vout },
            ),
            (FundingStage::TweakablePubkey { vout }, FundingAnswer::Pubkey(pubkey)) => self.at(
                FundingStage::MultisigPubkey { vout, pubkey },
            ),
            (FundingStage::MultisigPubkey { vout, pubkey }, FundingAnswer::Passed) => self.at(
                FundingStage::HashlockPubkey { vout, pubkey },
            ),
            (FundingStage::HashlockPubkey { vout, .. }, FundingAnswer::Passed) => self.at(
                FundingStage::ContractScript { vout },
            ),
            (FundingStage::ContractScript { vout }, FundingAnswer::Script(script)) => self.at(
                FundingStage::CachedContract { vout, script },
            ),
            (FundingStage::CachedContract { .. }, FundingAnswer::PrevoutMatches(matches)) => {
                if matches {
                    self.passed_current()
                } else {
                    self.refused(
                        MakerError::General(
                            "provided contract does not match sender contract tx, rejecting",
                        ),
                    )
                }
            },
            (FundingStage::HashValue, FundingAnswer::HashValue(hash)) => self.at(
                FundingStage::Done(Ok(hash)),
            ),
            _ => self,
        }
    }

    /// The question that is open, `None` when the check is done.
    pub fn question(&self) -> (question: Option<FundingQuestion<'_>>)
        requires
            self.well_formed(),
        ensures
            question == self.open_question(),
    {
        match &self.stage {
            FundingStage::HashValue => {
                return Some(FundingQuestion::CheckHashvaluesAreEqual(self.message));
            },
            FundingStage::Done(_) => {
                return None;
            },
            _ => {},
        }
        let info = &self.message.confirmed_funding_txes[self.position];
        match &self.stage {
            FundingStage::ContractLocktime => Some(
                FundingQuestion::ReadContractLocktime(&info.contract_redeemscript),
            ),
            FundingStage::OutputIndex => Some(FundingQuestion::FindFundingOutputIndex(info)),
            FundingStage::TxOut { vout } => Some(
                FundingQuestion::GetTxOut {
                    outpoint: OutPoint { txid: info.funding_tx.txid(), vout: *vout },
                },
            ),
            FundingStage::MultisigScript { .. } => Some(
                FundingQuestion::CheckRedeemscriptIsMultisig(&info.multisig_redeemscript),
            ),
            FundingStage::TweakablePubkey { .. } => Some(FundingQuestion::GetTweakablePubkey),
            FundingStage::MultisigPubkey { pubkey, .. } => Some(
                FundingQuestion::CheckMultisigHasPubkey {
                    redeemscript: &info.multisig_redeemscript,
                    pubkey,
                    nonce: &info.multisig_nonce,
                },
            ),
            FundingStage::HashlockPubkey { pubkey, .. } => Some(
                FundingQuestion::CheckHashlockHasPubkey {
                    redeemscript: &info.contract_redeemscript,
                    pubkey,
                    nonce: &info.hashlock_nonce,
                },
            ),
            FundingStage::ContractScript { .. } => Some(
                FundingQuestion::RedeemscriptToScriptpubkey(&info.contract_redeemscript),
            ),
            FundingStage::CachedContract { vout, script } => Some(
                FundingQuestion::DoesPrevoutMatchCachedContract {
                    prevout: OutPoint { txid: info.funding_tx.txid(), vout: *vout },
                    script,
                },
            ),
            FundingStage::HashValue => Some(FundingQuestion::CheckHashvaluesAreEqual(self.message)),
            FundingStage::Done(_) => None,
        }
    }

    /// The check once the open question is answered.
    pub fn resume(self, answer: FundingAnswer) -> (next: FundingCheck<'m>)
        requires
            self.well_formed(),
            self.accepts(answer),
        ensures
            next == self.after(answer),
            next.well_formed(),
    {
        let FundingCheck { message, min_contract_reaction_time, required_confirms, position, stage }
            = self;
        let mut next_position: usize = position;
        let next_stage = match (stage, answer) {
            (_, FundingAnswer::Failed(error)) => FundingStage::Done(Err(error)),
            (FundingStage::ContractLocktime, FundingAnswer::Locktime(locktime)) => {
                if locktime < message.next_locktime || locktime - message.next_locktime
                    < min_contract_reaction_time {
                    FundingStage::Done(
                        Err(
                            MakerError::General(
                                "Next hop locktime too close to current hop locktime",
                            ),
                        ),
                    )
                } else {
                    FundingStage::OutputIndex
                }
            },
            (FundingStage::OutputIndex, FundingAnswer::OutputIndex(vout)) => {
                FundingStage::TxOut { vout }
            },
            (FundingStage::TxOut { vout }, FundingAnswer::TxOut(output)) => match output {
                Some(confirmations) => {
                    let required: u32 = #[verifier::truncate] (required_confirms as u32);
                    assert(required_confirms as u32 == required_confirms % 0x1_0000_0000)
                        by (bit_vector);
                    if confirmations < required {
                        FundingStage::Done(
                            Err(MakerError::General("funding tx not confirmed to required depth")),
                        )
                    } else {
                        FundingStage::MultisigScript { vout }
                    }
                },
                None => FundingStage::Done(
                    Err(MakerError::General("funding tx output doesnt exist")),
                ),
            },
            (FundingStage::MultisigScript { vout }, FundingAnswer::Passed) => {
                FundingStage::TweakablePubkey { vout }
            },
            (FundingStage::TweakablePubkey { vout }, FundingAnswer::Pubkey(pubkey)) => {
                FundingStage::MultisigPubkey { vout, pubkey }
            },
            (FundingStage::MultisigPubkey { vout, pubkey }, FundingAnswer::Passed) => {
                FundingStage::HashlockPubkey { vout, pubkey }
            },
            (FundingStage::HashlockPubkey { vout, .. }, FundingAnswer::Passed) => {
                FundingStage::ContractScript { vout }
            },
            (FundingStage::ContractScript { vout }, FundingAnswer::Script(script)) => {
                FundingStage::CachedContract { vout, script }
            },
            (FundingStage::CachedContract { .. }, FundingAnswer::PrevoutMatches(matches)) => {
                if matches {
                    next_position = position + 1;
                    if next_position < message.confirmed_funding_txes.len() {
                        FundingStage::ContractLocktime
                    } else {
                        FundingStage::HashValue
                    }
                } else {
                    FundingStage::Done(
                        Err(
                            MakerError::General(
                                "provided contract does not match sender contract tx, rejecting",
                            ),
                        ),
                    )
                }
            },
            (FundingStage::HashValue, FundingAnswer::HashValue(hash)) => FundingStage::Done(
                Ok(hash),
            ),
            (stage, _) => stage,
        };
        FundingCheck {
            message,
            min_contract_reaction_time,
            required_confirms,
            position: next_position,
            stage: next_stage,
        }
    }
}

} // verus!
