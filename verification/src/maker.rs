//! The maker.

use vstd::prelude::*;

use crate::connections::{ConnectionState, ConnectionTable, IpAddr};
use crate::error::MakerError;
use crate::funding::{FundingCheck, FundingStage};
use crate::messages::{ProofOfFunding, ReqContractSigsForSender};
use crate::signing::SigningCheck;

verus! {

/// Special behavior of a maker, for tests.
#[derive(Debug, Clone, Copy, PartialEq, Eq, Structural)]
pub enum MakerBehavior {
    Normal,
    CloseOnSignSendersContractTx,
}

/// The settings of a maker.
#[derive(Debug)]
pub struct MakerConfig {
    /// The port that the maker listens on.
    pub port: u16,
    /// The onion address that the maker is reached at.
    pub onion_addrs: String,
    /// Seconds between two checks for idle connections.
    pub heart_beat_interval_secs: u64,
    /// Confirmations that a funding transaction needs; the low 32 bits count.
    pub required_confirms: u64,
    /// Blocks that the maker wants to react to a contract.
    pub min_contract_reaction_time: u16,
}

/// The maker, without its wallet.
pub struct Maker {
    /// Special behavior, for tests.
    pub behavior: MakerBehavior,
    pub config: MakerConfig,
    /// Whether the maker is to shut down.
    pub shutdown: bool,
    /// The connections of takers.
    pub connection_state: ConnectionTable,
}

impl Maker {
    /// A maker with its settings, running and without connections.
    pub fn init(config: MakerConfig, behavior: MakerBehavior) -> (maker: Maker)
        ensures
            maker.behavior == behavior,
            maker.config == config,
            !maker.shutdown,
            maker.connection_state.well_formed(),
            maker.connection_state@ == Map::<IpAddr, (ConnectionState, u128)>::empty(),
    {
        Maker { behavior, config, shutdown: false, connection_state: ConnectionTable::new() }
    }

    /// The maker once it is to shut down.
    pub open spec fn shutting_down(self) -> Maker {
        Maker { shutdown: true, ..self }
    }

    /// Has the maker shut down.
    pub fn shutdown(&mut self)
        ensures
            *final(self) == old(self).shutting_down(),
            final(self).shutdown,
            final(self).behavior == old(self).behavior,
            final(self).config == old(self).config,
            final(self).connection_state == old(self).connection_state,
    {
        self.shutdown = true;
    }

    /// Begins to check the consistency of a proof of funding, for the hash value that the hashlock
    /// contracts share.
    pub fn verify_proof_of_funding<'m>(&self, message: &'m ProofOfFunding) -> (check: FundingCheck<
        'm,
    >)
        ensures
            check == FundingCheck::start(
                message,
                self.config.min_contract_reaction_time,
                self.config.required_confirms,
            ),
            check.well_formed(),
    {
        FundingCheck {
            message,
            min_contract_reaction_time: self.config.min_contract_reaction_time,
            required_confirms: self.config.required_confirms,
            position: 0,
            stage: if message.confirmed_funding_txes.len() == 0 {
                FundingStage::Done(Err(MakerError::General("No funding txs provided by Taker")))
            } else {
                FundingStage::ContractLocktime
            },
        }
    }

    /// Begins to verify the sender's contract transactions and to sign them.
    pub fn verify_and_sign_contract_tx<'m>(
        &self,
        message: &'m ReqContractSigsForSender,
    ) -> (check: SigningCheck<'m>)
        ensures
            check@ == crate::signing::SigningView::entering(message, 0, Seq::empty()),
            check.min_contract_reaction_time == self.config.min_contract_reaction_time,
            check@.well_formed(),
    {
        SigningCheck::start(message, self.config.min_contract_reaction_time)
    }
}

} // verus!
