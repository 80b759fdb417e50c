//! Giving up the connections that fell silent.

use vstd::prelude::*;

use crate::contract_broadcast::{IncomingContract, OutgoingContract};
use crate::connections::{ConnectionState, IpAddr};
use crate::maker::Maker;
use crate::transaction::Transaction;

verus! {

/// A table of connections once the addresses of `bad_ip` are taken out of it.
pub open spec fn cleared(
    table: Map<IpAddr, (ConnectionState, u128)>,
    bad_ip: Seq<IpAddr>,
) -> Map<IpAddr, (ConnectionState, u128)> {
    table.remove_keys(bad_ip.to_set())
}

/// Whether the checks for idle connections come to their end.
pub open spec fn checks_end(maker: Maker) -> bool {
    maker.shutdown
}

/// One check for idle connections at `current_time`; `None` where the maker is to shut down.
///
/// The connections given up by earlier checks, whose addresses are in `bad_ip`, leave the table.
/// The addresses of those that are idle among the rest are returned, and remembered in `bad_ip`.
pub fn check_for_idle_states(
    maker: &mut Maker,
    bad_ip: &mut Vec<IpAddr>,
    current_time: u128,
) -> (dropped: Option<Vec<IpAddr>>)
    requires
        old(maker).connection_state.well_formed(),
    ensures
        final(maker).connection_state.well_formed(),
        final(maker).behavior == old(maker).behavior,
        final(maker).config == old(maker).config,
        final(maker).shutdown == old(maker).shutdown,
        dropped is None <==> checks_end(*old(maker)),
        dropped is None <==> old(maker).shutdown,
        dropped is None ==> *final(maker) == *old(maker) && *final(bad_ip) == *old(bad_ip),
        dropped matches Some(idle) ==> {
            let before = old(maker).connection_state@;
            let after = final(maker).connection_state@;
            &&& final(maker).connection_state@ == cleared(
                old(maker).connection_state@,
                old(bad_ip)@,
            )
            &&& forall|ip: IpAddr| #[trigger]
                after.contains_key(ip) <==> before.contains_key(ip) && !old(bad_ip)@.contains(ip)
            &&& forall|ip: IpAddr| #[trigger] after.contains_key(ip) ==> after[ip] == before[ip]
            &&& idle@.no_duplicates()
            &&& forall|ip: IpAddr| #[trigger]
                idle@.contains(ip) <==> before.contains_key(ip) && !old(bad_ip)@.contains(ip)
                    && current_time > before[ip].1 + 30_000_000_000
            &&& forall|ip: IpAddr| #[trigger]
                idle@.contains(ip) <==> final(maker).connection_state@.contains_key(ip)
                    && crate::connections::is_idle(
                    current_time,
                    final(maker).connection_state@[ip].1,
                )
            &&& final(bad_ip)@ == old(bad_ip)@ + idle@
        },
{
    if maker.shutdown {
        return None;
    }
    let ghost table = maker.connection_state@;
    for i in 0..bad_ip.len()
        invariant
            bad_ip@ == old(bad_ip)@,
            maker.connection_state.well_formed(),
            maker.behavior == old(maker).behavior,
            maker.config == old(maker).config,
            maker.shutdown == old(maker).shutdown,
            maker.connection_state@ == cleared(table, bad_ip@.take(i as int)),
    {
        let ip = bad_ip[i];
        proof {
            let done = bad_ip@.take(i as int);
            let more = bad_ip@.take(i + 1);
            assert(more == done.push(ip));
            lemma_cleared_push(table, done, ip);
        }
        maker.connection_state.remove(&ip);
    }
    assert(bad_ip@.take(bad_ip.len() as int) =~= bad_ip@);
    proof {
        assert forall|ip: IpAddr| #[trigger]
            maker.connection_state@.contains_key(ip) <==> table.contains_key(ip)
                && !bad_ip@.contains(ip) by {
            law_check_takes_out_exactly_what_was_given_up(table, bad_ip@, ip);
        }
    }
    let idle = maker.connection_state.idle(current_time);
    for i in 0..idle.len()
        invariant
            bad_ip@ == old(bad_ip)@ + idle@.take(i as int),
    {
        bad_ip.push(idle[i]);
        assert(idle@.take(i + 1) =~= idle@.take(i as int).push(idle@[i as int]));
    }
    assert(idle@.take(idle.len() as int) =~= idle@);
    Some(idle)
}

proof fn lemma_cleared_push(
    table: Map<IpAddr, (ConnectionState, u128)>,
    bad_ip: Seq<IpAddr>,
    ip: IpAddr,
)
    ensures
        cleared(table, bad_ip.push(ip)) == cleared(table, bad_ip).remove(ip),
{
    assert forall|other: IpAddr| #[trigger]
        bad_ip.push(ip).to_set().contains(other) <==> bad_ip.to_set().contains(other) || other
            == ip by {
        if bad_ip.contains(other) {
            let i = bad_ip.index_of(other);
            assert(bad_ip.push(ip)[i] == other);
        }
        assert(bad_ip.push(ip)[bad_ip.len() as int] == ip);
    }
    assert(cleared(table, bad_ip.push(ip)) =~= cleared(table, bad_ip).remove(ip));
}

/// A check takes exactly the connections out of the table that were given up before, and leaves the
/// others as they are.
pub proof fn law_check_takes_out_exactly_what_was_given_up(
    table: Map<IpAddr, (ConnectionState, u128)>,
    bad_ip: Seq<IpAddr>,
    ip: IpAddr,
)
    ensures
        cleared(table, bad_ip).contains_key(ip) <==> table.contains_key(ip) && !bad_ip.contains(ip),
        cleared(table, bad_ip).contains_key(ip) ==> cleared(table, bad_ip)[ip] == table[ip],
{
    assert(bad_ip.to_set().contains(ip) == bad_ip.contains(ip));
}

/// A connection that a check gave up is out of the table after any later check, whatever was put
/// into the table and whatever else was given up in between.
pub proof fn law_dropped_connection_leaves_at_the_next_check(
    bad_ip: Seq<IpAddr>,
    dropped: Seq<IpAddr>,
    later: Seq<IpAddr>,
    table: Map<IpAddr, (ConnectionState, u128)>,
    ip: IpAddr,
)
    requires
        dropped.contains(ip),
    ensures
        !cleared(table, bad_ip + dropped + later).contains_key(ip),
{
    let i = dropped.index_of(ip);
    assert((bad_ip + dropped + later)[bad_ip.len() + i] == ip);
    assert((bad_ip + dropped + later).to_set().contains(ip));
}

/// A connection that was heard of within the timeout, or after the time of the check, is not given
/// up.
pub proof fn law_live_connection_is_kept(now: u128, last_connected: u128)
    requires
        now <= last_connected + 30_000_000_000,
    ensures
        !crate::connections::is_idle(now, last_connected),
{
}

/// The checks for idle connections end with the shutdown of the maker, and with nothing else.
pub proof fn law_shutdown_ends_the_checks(maker: Maker)
    ensures
        checks_end(maker) <==> maker.shutdown,
        checks_end(maker.shutting_down()),
{
}

impl ConnectionState {
    /// How many outgoing swapcoins stand beside an incoming one.
    pub open spec fn pairs(self) -> nat {
        if self.outgoing_swapcoins.len() <= self.incoming_swapcoins.len() {
            self.outgoing_swapcoins@.len()
        } else {
            self.incoming_swapcoins@.len()
        }
    }

    /// Whether every paired swapcoin has its contract transaction with all signatures.
    pub open spec fn fully_signed(self) -> bool {
        forall|i: int|
            #![trigger self.outgoing_swapcoins@[i]]
            #![trigger self.incoming_swapcoins@[i]]
            0 <= i < self.pairs() ==> self.outgoing_swapcoins@[i].signed_contract_tx is Some
                && self.incoming_swapcoins@[i].signed_contract_tx is Some
    }

    /// An outgoing and an incoming swapcoin are a pair exactly where there is one of each: the
    /// pairs are as many as the shorter of the two lists is long. The swap is fully signed exactly
    /// if both swapcoins of every such pair are.
    pub proof fn law_pairs_are_as_many_as_the_shorter_list(self, i: int)
        ensures
            self.pairs() <= self.outgoing_swapcoins@.len(),
            self.pairs() <= self.incoming_swapcoins@.len(),
            self.pairs() == self.outgoing_swapcoins@.len() || self.pairs()
                == self.incoming_swapcoins@.len(),
            0 <= i < self.outgoing_swapcoins@.len() && i < self.incoming_swapcoins@.len() ==> i
                < self.pairs(),
            self.fully_signed() <==> forall|j: int|
                #![trigger self.outgoing_swapcoins@[j]]
                #![trigger self.incoming_swapcoins@[j]]
                0 <= j < self.outgoing_swapcoins@.len() && j < self.incoming_swapcoins@.len()
                    ==> self.outgoing_swapcoins@[j].signed_contract_tx is Some
                    && self.incoming_swapcoins@[j].signed_contract_tx is Some,
    {
    }

    /// How many outgoing swapcoins stand beside an incoming one: that many timelock spends are
    /// needed to claim the swap.
    pub fn pair_count(&self) -> (count: usize)
        ensures
            count == self.pairs(),
            count <= self.outgoing_swapcoins.len(),
            count <= self.incoming_swapcoins.len(),
            count == self.outgoing_swapcoins.len() || count == self.incoming_swapcoins.len(),
    {
        if self.outgoing_swapcoins.len() <= self.incoming_swapcoins.len() {
            self.outgoing_swapcoins.len()
        } else {
            self.incoming_swapcoins.len()
        }
    }

    /// Whether every paired swapcoin has its contract transaction with all signatures.
    pub fn is_fully_signed(&self) -> (signed: bool)
        ensures
            signed == self.fully_signed(),
            signed <==> forall|i: int|
                #![trigger self.outgoing_swapcoins@[i]]
                #![trigger self.incoming_swapcoins@[i]]
                0 <= i < self.outgoing_swapcoins@.len() && i < self.incoming_swapcoins@.len()
                    ==> self.outgoing_swapcoins@[i].signed_contract_tx is Some
                    && self.incoming_swapcoins@[i].signed_contract_tx is Some,
    {
        let count: usize = self.pair_count();
        for i in 0..count
            invariant
                count == self.pairs(),
                forall|j: int|
                    #![trigger self.outgoing_swapcoins@[j]]
                    #![trigger self.incoming_swapcoins@[j]]
                    0 <= j < i ==> self.outgoing_swapcoins@[j].signed_contract_tx is Some
                        && self.incoming_swapcoins@[j].signed_contract_tx is Some,
        {
            if self.outgoing_swapcoins[i].signed_contract_tx.is_none()
                || self.incoming_swapcoins[i].signed_contract_tx.is_none() {
                return false;
            }
        }
        true
    }

    /// What to broadcast for a connection that is given up: for each outgoing swapcoin with an
    /// incoming one beside it, both contracts, and the spend of the outgoing one by its timelock.
    pub fn contracts_to_broadcast(&self, timelock_spends: &Vec<Transaction>) -> (contracts: (
        Vec<OutgoingContract>,
        Vec<IncomingContract>,
    ))
        requires
            self.fully_signed(),
            timelock_spends.len() == self.pairs(),
        ensures
            contracts.0.len() == self.pairs(),
            contracts.1.len() == self.pairs(),
            contracts.0.len() == contracts.1.len(),
            contracts.0.len() <= self.outgoing_swapcoins.len(),
            contracts.0.len() <= self.incoming_swapcoins.len(),
            contracts.0.len() == self.outgoing_swapcoins.len() || contracts.0.len()
                == self.incoming_swapcoins.len(),
            forall|i: int|
                #![trigger contracts.0@[i]]
                0 <= i < self.pairs() ==> {
                    let coin = self.outgoing_swapcoins@[i];
                    let ((redeemscript, contract), (timelock, spend)) = contracts.0@[i];
                    &&& redeemscript@ == coin.multisig_redeemscript@
                    &&& contract@ == coin.signed_contract_tx->0@
                    &&& timelock == coin.timelock
                    &&& spend@ == timelock_spends@[i]@
                },
            forall|i: int|
                #![trigger contracts.1@[i]]
                0 <= i < self.pairs() ==> {
                    let coin = self.incoming_swapcoins@[i];
                    let (redeemscript, contract) = contracts.1@[i];
                    &&& redeemscript@ == coin.multisig_redeemscript@
                    &&& contract@ == coin.signed_contract_tx->0@
                },
    {
        let mut outgoings: Vec<OutgoingContract> = Vec::new();
        let mut incomings: Vec<IncomingContract> = Vec::new();
        let count: usize = self.pair_count();
        for i in 0..count
            invariant
                count == self.pairs(),
                self.fully_signed(),
                timelock_spends.len() == self.pairs(),
                outgoings.len() == i,
                incomings.len() == i,
                forall|j: int|
                    #![trigger outgoings@[j]]
                    0 <= j < i ==> {
                        let coin = self.outgoing_swapcoins@[j];
                        let ((redeemscript, contract), (timelock, spend)) = outgoings@[j];
                        &&& redeemscript@ == coin.multisig_redeemscript@
                        &&& contract@ == coin.signed_contract_tx->0@
                        &&& timelock == coin.timelock
                        &&& spend@ == timelock_spends@[j]@
                    },
                forall|j: int|
                    #![trigger incomings@[j]]
                    0 <= j < i ==> {
                        let coin = self.incoming_swapcoins@[j];
                        let (redeemscript, contract) = incomings@[j];
                        &&& redeemscript@ == coin.multisig_redeemscript@
                        &&& contract@ == coin.signed_contract_tx->0@
                    },
        {
            let outgoing = &self.outgoing_swapcoins[i];
            let incoming = &self.incoming_swapcoins[i];
            if let (Some(contract), Some(incoming_contract)) = (
                &outgoing.signed_contract_tx,
                &incoming.signed_contract_tx,
            ) {
                outgoings.push(
                    (
                        (
                            crate::transaction::copy_bytes(&outgoing.multisig_redeemscript),
                            contract.clone(),
                        ),
                        (outgoing.timelock, timelock_spends[i].clone()),
                    ),
                );
                incomings.push(
                    (
                        crate::transaction::copy_bytes(&incoming.multisig_redeemscript),
                        incoming_contract.clone(),
                    ),
                );
            }
        }
        (outgoings, incomings)
    }
}

} // verus!
