//! Examining and signing the sender's contract transactions.
//!
//! The request is worked through one contract transaction after the other. For each the wallet and
//! the contract scripts are asked, and each answer moves the work on; it stops at the first answer
//! that breaks a rule.

use vstd::prelude::*;

use crate::error::MakerError;
use crate::keys::{PublicKey, SecretKey};
use crate::messages::{ContractTxInfoForSender, Hash160, ReqContractSigsForSender};
use crate::transaction::{OutPoint, ScriptBuf, Transaction, TxOut};

verus! {

/// A signature in its compact encoding.
pub type Signature = [u8; 64];

/// What the work waits for.
pub enum SigningStage {
    /// Whether the wallet knows no other contract for the spent output.
    PrevoutMatch,
    /// The maker's tweakable key pair.
    TweakableKeypair,
    /// Whether the multisig script holds the maker's key.
    MultisigPubkey { secret: SecretKey, pubkey: PublicKey },
    /// Whether the contract output is the one that was agreed on.
    ContractOutput { secret: SecretKey, hashlock_pubkey: PublicKey },
    /// That the wallet remembers the contract for the spent output.
    CacheContract { secret: SecretKey },
    /// The signature by this key.
    Signature { multisig_secret: SecretKey },
    /// Nothing more: everything is signed.
    Signed,
    /// Nothing more: the request is refused.
    Refused(MakerError),
}

/// A question, or a task, of the work.
pub enum SigningQuestion<'a> {
    DoesPrevoutMatchCachedContract { prevout: &'a OutPoint, script: &'a ScriptBuf },
    GetTweakableKeypair,
    CheckMultisigHasPubkey {
        redeemscript: &'a ScriptBuf,
        pubkey: &'a PublicKey,
        nonce: &'a SecretKey,
    },
    IsContractOutValid {
        output: &'a TxOut,
        hashlock_pubkey: &'a PublicKey,
        timelock_pubkey: &'a PublicKey,
        hashvalue: &'a Hash160,
        locktime: u16,
        min_contract_reaction_time: u16,
    },
    CachePrevoutToContract { prevout: &'a OutPoint, script: &'a ScriptBuf },
    SignContractTx {
        tx: &'a Transaction,
        redeemscript: &'a ScriptBuf,
        funding_input_value: u64,
        key: &'a SecretKey,
    },
}

/// An answer to a question of the work.
pub enum SigningAnswer {
    PrevoutMatches(bool),
    Keypair { secret: SecretKey, pubkey: PublicKey },
    /// What was asked about is in order, or what was asked for is done.
    Passed,
    Signature(Signature),
    /// Whoever was asked failed, or refused.
    Failed(MakerError),
}

/// A request for signatures under examination.
pub struct SigningCheck<'m> {
    pub message: &'m ReqContractSigsForSender,
    /// Blocks that the maker wants to react to a contract.
    pub min_contract_reaction_time: u16,
    /// The contract transaction under examination.
    pub position: usize,
    /// The signatures on the contract transactions before it.
    pub signatures: Vec<Signature>,
    pub stage: SigningStage,
}

/// A [SigningStage], with the keys by what they are.
pub enum SigningStageView {
    PrevoutMatch,
    TweakableKeypair,
    MultisigPubkey { secret: nat, pubkey: Seq<u8> },
    ContractOutput { secret: nat, hashlock_pubkey: Seq<u8> },
    CacheContract { secret: nat },
    Signature { multisig_secret: nat },
    Signed,
    Refused(MakerError),
}

/// A [SigningCheck], with the keys by what they are.
pub struct SigningView<'m> {
    pub message: &'m ReqContractSigsForSender,
    pub position: nat,
    pub signatures: Seq<Signature>,
    pub stage: SigningStageView,
}

impl View for SigningStage {
    type V = SigningStageView;

    open spec fn view(&self) -> SigningStageView {
        match *self {
            SigningStage::PrevoutMatch => SigningStageView::PrevoutMatch,
            SigningStage::TweakableKeypair => SigningStageView::TweakableKeypair,
            SigningStage::MultisigPubkey { secret, pubkey } => SigningStageView::MultisigPubkey {
                secret: secret@,
                pubkey: pubkey@,
            },
            SigningStage::ContractOutput { secret, hashlock_pubkey } => {
                SigningStageView::ContractOutput {
                    secret: secret@,
                    hashlock_pubkey: hashlock_pubkey@,
                }
            },
            SigningStage::CacheContract { secret } => SigningStageView::CacheContract {
                secret: secret@,
            },
            SigningStage::Signature { multisig_secret } => SigningStageView::Signature {
                multisig_secret: multisig_secret@,
            },
            SigningStage::Signed => SigningStageView::Signed,
            SigningStage::Refused(error) => SigningStageView::Refused(error),
        }
    }
}

impl<'m> View for SigningCheck<'m> {
    type V = SigningView<'m>;

    open spec fn view(&self) -> SigningView<'m> {
        SigningView {
            message: self.message,
            position: self.position as nat,
            signatures: self.signatures@,
            stage: self.stage@,
        }
    }
}

/// Whether a contract transaction moves one coin to one output.
pub open spec fn moves_one_coin(tx: Transaction) -> bool {
    tx.input.len() == 1 && tx.output.len() == 1
}

impl<'m> SigningView<'m> {
    /// While something is awaited of a contract transaction, there is that transaction and it
    /// moves one coin; there is one signature for each transaction before it.
    pub open spec fn well_formed(self) -> bool {
        &&& self.signatures.len() == self.position
        &&& self.position <= self.message.txs_info.len()
        &&& match self.stage {
            SigningStageView::Signed => self.position == self.message.txs_info.len(),
            SigningStageView::Refused(_) => self.position < self.message.txs_info.len(),
            _ => self.position < self.message.txs_info.len() && moves_one_coin(
                self.current().senders_contract_tx,
            ),
        }
    }

    /// The contract transaction under examination.
    pub open spec fn current(self) -> ContractTxInfoForSender {
        self.message.txs_info@[self.position as int]
    }

    /// The work before the first question about the contract transaction at `position`.
    pub open spec fn entering(
        message: &'m ReqContractSigsForSender,
        position: nat,
        signatures: Seq<Signature>,
    ) -> SigningView<'m> {
        SigningView {
            message,
            position,
            signatures,
            stage: if position >= message.txs_info.len() {
                SigningStageView::Signed
            } else if !moves_one_coin(message.txs_info@[position as int].senders_contract_tx) {
                SigningStageView::Refused(
                    MakerError::General(
                        "invalid number of inputs or outputs in contract transaction",
                    ),
                )
            } else {
                SigningStageView::PrevoutMatch
            },
        }
    }

    /// Whether `answer` answers the open question.
    pub open spec fn accepts(self, answer: SigningAnswer) -> bool {
        match (self.stage, answer) {
            (SigningStageView::Signed, _) => false,
            (SigningStageView::Refused(_), _) => false,
            (_, SigningAnswer::Failed(_)) => true,
            (SigningStageView::PrevoutMatch, SigningAnswer::PrevoutMatches(_)) => true,
            (SigningStageView::TweakableKeypair, SigningAnswer::Keypair { .. }) => true,
            (SigningStageView::MultisigPubkey { .. }, SigningAnswer::Passed) => true,
            (SigningStageView::ContractOutput { .. }, SigningAnswer::Passed) => true,
            (SigningStageView::CacheContract { .. }, SigningAnswer::Passed) => true,
            (SigningStageView::Signature { .. }, SigningAnswer::Signature(_)) => true,
            _ => false,
        }
    }

    /// The work at another stage of the same contract transaction.
    pub open spec fn at(self, stage: SigningStageView) -> SigningView<'m> {
        SigningView { stage, ..self }
    }

    /// The work once the open question is answered. The hashlock key and the signing key are the
    /// tweakable key with the taker's nonces added; a vanishing sum refuses the request.
    pub open spec fn after(self, answer: SigningAnswer) -> SigningView<'m> {
        match (self.stage, answer) {
            (_, SigningAnswer::Failed(error)) => self.at(SigningStageView::Refused(error)),
            (SigningStageView::PrevoutMatch, SigningAnswer::PrevoutMatches(matches)) => {
                if matches {
                    self.at(SigningStageView::TweakableKeypair)
                } else {
                    self.at(
                        SigningStageView::Refused(
                            MakerError::General(
                                "taker attempting multiple contract attack, rejecting",
                            ),
                        ),
                    )
                }
            },
            (
                SigningStageView::TweakableKeypair,
                SigningAnswer::Keypair { secret, pubkey },
            ) => self.at(SigningStageView::MultisigPubkey { secret: secret@, pubkey: pubkey@ }),
            (SigningStageView::MultisigPubkey { secret, .. }, SigningAnswer::Passed) => {
                let hashlock_secret = crate::keys::tweaked(secret, self.current().hashlock_nonce@);
                if hashlock_secret == 0 {
                    self.at(SigningStageView::Refused(MakerError::Secp))
                } else {
                    self.at(
                        SigningStageView::ContractOutput {
                            secret,
                            hashlock_pubkey: crate::keys::compressed_point(hashlock_secret),
                        },
                    )
                }
            },
            (SigningStageView::ContractOutput { secret, .. }, SigningAnswer::Passed) => self.at(
                SigningStageView::CacheContract { secret },
            ),
            (SigningStageView::CacheContract { secret }, SigningAnswer::Passed) => {
                let multisig_secret = crate::keys::tweaked(secret, self.current().multisig_nonce@);
                if multisig_secret == 0 {
                    self.at(SigningStageView::Refused(MakerError::Secp))
                } else {
                    self.at(SigningStageView::Signature { multisig_secret })
                }
            },
            (SigningStageView::Signature { .. }, SigningAnswer::Signature(signature)) => {
                SigningView::entering(
                    self.message,
                    self.position + 1,
                    self.signatures.push(signature),
                )
            },
            _ => self,
        }
    }
}

impl<'m> SigningCheck<'m> {
    /// The contract transaction under examination.
    pub open spec fn current(self) -> ContractTxInfoForSender {
        self.message.txs_info@[self.position as int]
    }

    /// The question that is open, `None` when the work is done.
    pub open spec fn open_question(self) -> Option<SigningQuestion<'m>> {
        let info = self.current();
        let tx = info.senders_contract_tx;
        match self.stage {
            SigningStage::PrevoutMatch => Some(
                SigningQuestion::DoesPrevoutMatchCachedContract {
                    prevout: &tx.input@[0].previous_output,
                    script: &tx.output@[0].script_pubkey,
                },
            ),
            SigningStage::TweakableKeypair => Some(SigningQuestion::GetTweakableKeypair),
            SigningStage::MultisigPubkey { pubkey, .. } => Some(
                SigningQuestion::CheckMultisigHasPubkey {
                    redeemscript: &info.multisig_redeemscript,
                    pubkey: &pubkey,
                    nonce: &info.multisig_nonce,
                },
            ),
            SigningStage::ContractOutput { hashlock_pubkey, .. } => Some(
                SigningQuestion::IsContractOutValid {
                    output: &tx.output@[0],
                    hashlock_pubkey: &hashlock_pubkey,
                    timelock_pubkey: &info.timelock_pubkey,
                    hashvalue: &self.message.hashvalue,
                    locktime: self.message.locktime,
                    min_contract_reaction_time: self.min_contract_reaction_time,
                },
            ),
            SigningStage::CacheContract { .. } => Some(
                SigningQuestion::CachePrevoutToContract {
                    prevout: &tx.input@[0].previous_output,
                    script: &tx.output@[0].script_pubkey,
                },
            ),
            SigningStage::Signature { multisig_secret } => Some(
                SigningQuestion::SignContractTx {
                    tx: &info.senders_contract_tx,
                    redeemscript: &info.multisig_redeemscript,
                    funding_input_value: info.funding_input_value,
                    key: &multisig_secret,
                },
            ),
            SigningStage::Signed => None,
            SigningStage::Refused(_) => None,
        }
    }

    /// The stage in front of the contract transaction at `position`.
    fn entry_stage(message: &'m ReqContractSigsForSender, position: usize) -> (stage: SigningStage)
        ensures
            forall|signatures: Seq<Signature>|
                stage@ == (#[trigger] SigningView::entering(
                    message,
                    position as nat,
                    signatures,
                )).stage,
    {
        if position >= message.txs_info.len() {
            SigningStage::Signed
        } else {
            let tx = &message.txs_info[position].senders_contract_tx;
            if tx.input.len() != 1 || tx.output.len() != 1 {
                SigningStage::Refused(
                    MakerError::General(
                        "invalid number of inputs or outputs in contract transaction",
                    ),
                )
            } else {
                SigningStage::PrevoutMatch
            }
        }
    }

    /// The work before its first question.
    pub fn start(
        message: &'m ReqContractSigsForSender,
        min_contract_reaction_time: u16,
    ) -> (check: SigningCheck<'m>)
        ensures
            check@ == SigningView::entering(message, 0, Seq::empty()),
            check.min_contract_reaction_time == min_contract_reaction_time,
            check@.well_formed(),
    {
        SigningCheck {
            message,
            min_contract_reaction_time,
            position: 0,
            signatures: Vec::new(),
            stage: SigningCheck::entry_stage(message, 0),
        }
    }

    /// The question that is open, `None` when the work is done.
    pub fn question(&self) -> (question: Option<SigningQuestion<'_>>)
        requires
            self@.well_formed(),
        ensures
            question == self.open_question(),
    {
        match &self.stage {
            SigningStage::Signed => {
                return None;
            },
            SigningStage::Refused(_) => {
                return None;
            },
            _ => {},
        }
        let info = &self.message.txs_info[self.position];
        let tx = &info.senders_contract_tx;
        match &self.stage {
            SigningStage::PrevoutMatch => Some(
                SigningQuestion::DoesPrevoutMatchCachedContract {
                    prevout: &tx.input[0].previous_output,
                    script: &tx.output[0].script_pubkey,
                },
            ),
            SigningStage::TweakableKeypair => Some(SigningQuestion::GetTweakableKeypair),
            SigningStage::MultisigPubkey { pubkey, .. } => Some(
                SigningQuestion::CheckMultisigHasPubkey {
                    redeemscript: &info.multisig_redeemscript,
                    pubkey,
                    nonce: &info.multisig_nonce,
                },
            ),
            SigningStage::ContractOutput { hashlock_pubkey, .. } => Some(
                SigningQuestion::IsContractOutValid {
                    output: &tx.output[0],
                    hashlock_pubkey,
                    timelock_pubkey: &info.timelock_pubkey,
                    hashvalue: &self.message.hashvalue,
                    locktime: self.message.locktime,
                    min_contract_reaction_time: self.min_contract_reaction_time,
                },
            ),
            SigningStage::CacheContract { .. } => Some(
                SigningQuestion::CachePrevoutToContract {
                    prevout: &tx.input[0].previous_output,
                    script: &tx.output[0].script_pubkey,
                },
            ),
            SigningStage::Signature { multisig_secret } => Some(
                SigningQuestion::SignContractTx {
                    tx,
                    redeemscript: &info.multisig_redeemscript,
                    funding_input_value: info.funding_input_value,
                    key: multisig_secret,
                },
            ),
            SigningStage::Signed => None,
            SigningStage::Refused(_) => None,
        }
    }

    /// The work once the open question is answered.
    pub fn resume(self, answer: SigningAnswer) -> (next: SigningCheck<'m>)
        requires
            self@.well_formed(),
            self@.accepts(answer),
        ensures
            next@ == self@.after(answer),
            next.min_contract_reaction_time == self.min_contract_reaction_time,
            next@.well_formed(),
    {
        let SigningCheck { message, min_contract_reaction_time, position, mut signatures, stage } =
            self;
        let mut next_position: usize = position;
        let next_stage = match (stage, answer) {
            (_, SigningAnswer::Failed(error)) => SigningStage::Refused(error),
            (SigningStage::PrevoutMatch, SigningAnswer::PrevoutMatches(matches)) => {
                if matches {
                    SigningStage::TweakableKeypair
                } else {
                    SigningStage::Refused(
                        MakerError::General("taker attempting multiple contract attack, rejecting"),
                    )
                }
            },
            (SigningStage::TweakableKeypair, SigningAnswer::Keypair { secret, pubkey }) => {
                SigningStage::MultisigPubkey { secret, pubkey }
            },
            (SigningStage::MultisigPubkey { secret, .. }, SigningAnswer::Passed) => {
                match secret.add_tweak(&message.txs_info[position].hashlock_nonce) {
                    Some(hashlock_secret) => SigningStage::ContractOutput {
                        secret,
                        hashlock_pubkey: hashlock_secret.public_key(),
                    },
                    None => SigningStage::Refused(MakerError::Secp),
                }
            },
            (SigningStage::ContractOutput { secret, .. }, SigningAnswer::Passed) => {
                SigningStage::CacheContract { secret }
            },
            (SigningStage::CacheContract { secret }, SigningAnswer::Passed) => {
                match secret.add_tweak(&message.txs_info[position].multisig_nonce) {
                    Some(multisig_secret) => SigningStage::Signature { multisig_secret },
                    None => SigningStage::Refused(MakerError::Secp),
                }
            },
            (SigningStage::Signature { .. }, SigningAnswer::Signature(signature)) => {
                next_position = position + 1;
                signatures.push(signature);
                SigningCheck::entry_stage(message, next_position)
            },
            (stage, _) => stage,
        };
        SigningCheck {
            message,
            min_contract_reaction_time,
            position: next_position,
            signatures,
            stage: next_stage,
        }
    }

    /// The signatures, or why there are none; `None` while a question is open.
    pub fn into_result(self) -> (result: Option<Result<Vec<Signature>, MakerError>>)
        ensures
            result == match self.stage {
                SigningStage::Signed => Some(Ok(self.signatures)),
                SigningStage::Refused(error) => Some(Err(error)),
                _ => None,
            },
    {
        match self.stage {
            SigningStage::Signed => Some(Ok(self.signatures)),
            SigningStage::Refused(error) => Some(Err(error)),
            _ => None,
        }
    }
}

} // verus!
