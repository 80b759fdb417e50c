//! The connections of takers.

use vstd::prelude::*;

use crate::transaction::{ScriptBuf, Transaction};

verus! {

/// The message that a taker is expected to send next. Any other is an error of the protocol.
#[derive(Debug, Clone, Copy, PartialEq, Eq, Structural)]
pub enum ExpectedMessage {
    TakerHello,
    NewlyConnectedTaker,
    ReqContractSigsForSender,
    ProofOfFunding,
    ProofOfFundingORContractSigsForRecvrAndSender,
    ReqContractSigsForRecvr,
    HashPreimage,
    PrivateKeyHandover,
}

impl Default for ExpectedMessage {
    fn default() -> (message: ExpectedMessage)
        ensures
            message == ExpectedMessage::TakerHello,
    {
        ExpectedMessage::TakerHello
    }
}

/// A coin that the taker owes the maker.
#[derive(Debug, Clone)]
pub struct IncomingSwapCoin {
    pub multisig_redeemscript: ScriptBuf,
    /// The contract transaction with all its signatures, where they are all there.
    pub signed_contract_tx: Option<Transaction>,
}

/// A coin that the maker gives on.
#[derive(Debug, Clone)]
pub struct OutgoingSwapCoin {
    pub multisig_redeemscript: ScriptBuf,
    /// The contract transaction with all its signatures, where they are all there.
    pub signed_contract_tx: Option<Transaction>,
    /// Blocks until the contract matures.
    pub timelock: u16,
}

/// What the maker keeps of one connection: the swapcoins, and the message that comes next.
#[derive(Debug, Clone)]
pub struct ConnectionState {
    pub allowed_message: ExpectedMessage,
    pub incoming_swapcoins: Vec<IncomingSwapCoin>,
    pub outgoing_swapcoins: Vec<OutgoingSwapCoin>,
    pub pending_funding_txes: Vec<Transaction>,
}

impl Default for ConnectionState {
    fn default() -> (state: ConnectionState)
        ensures
            state.allowed_message == ExpectedMessage::TakerHello,
            state.incoming_swapcoins@ == Seq::<IncomingSwapCoin>::empty(),
            state.outgoing_swapcoins@ == Seq::<OutgoingSwapCoin>::empty(),
            state.pending_funding_txes@ == Seq::<Transaction>::empty(),
    {
        ConnectionState {
            allowed_message: ExpectedMessage::TakerHello,
            incoming_swapcoins: Vec::new(),
            outgoing_swapcoins: Vec::new(),
            pending_funding_txes: Vec::new(),
        }
    }
}

/// An address of a taker, by its number.
#[derive(Debug, Clone, Copy, PartialEq, Eq, Structural)]
pub enum IpAddr {
    V4(u32),
    V6(u128),
}

/// How long a connection may stay silent, in nanoseconds.
pub const IDLE_TIMEOUT_NANOS: u128 = 30_000_000_000;

/// Whether a connection last heard of at `last_connected` has been silent for too long at `now`. A
/// clock that runs behind the connection counts as no time at all.
pub open spec fn is_idle(now: u128, last_connected: u128) -> bool {
    now - last_connected > IDLE_TIMEOUT_NANOS
}

/// A connection is idle exactly when it has been silent for more than thirty seconds, wherever the
/// two times lie; so it is the difference of the two times alone that counts, and a connection that
/// is idle stays so until it is heard of again.
pub proof fn law_idle_exactly_when_silent_beyond_the_timeout(now: u128, last_connected: u128)
    ensures
        is_idle(now, last_connected) <==> now > last_connected + 30_000_000_000,
        forall|other: u128, heard: u128|
            other - heard == now - last_connected ==> #[trigger] is_idle(other, heard) == is_idle(
                now,
                last_connected,
            ),
        forall|later: u128|
            later >= now && is_idle(now, last_connected) ==> #[trigger] is_idle(
                later,
                last_connected,
            ),
{
}

/// The connections by address, each with the time it was last heard of, in nanoseconds since some
/// fixed moment. No address occurs twice.
pub struct ConnectionTable {
    entries: Vec<(IpAddr, (ConnectionState, u128))>,
}

impl View for ConnectionTable {
    type V = Map<IpAddr, (ConnectionState, u128)>;

    closed spec fn view(&self) -> Map<IpAddr, (ConnectionState, u128)> {
        Map::new(
            |ip: IpAddr| exists|i: int| self.holds_at(i, ip),
            |ip: IpAddr| self.entries@[choose|i: int| self.holds_at(i, ip)].1,
        )
    }
}

impl ConnectionTable {
    /// The entry at `i` is that of `ip`.
    spec fn holds_at(self, i: int, ip: IpAddr) -> bool {
        0 <= i < self.entries.len() && self.entries@[i].0 == ip
    }

    /// No address occurs twice.
    pub closed spec fn well_formed(self) -> bool {
        forall|i: int, j: int|
            0 <= i < j < self.entries.len() ==> (#[trigger] self.entries@[i]).0 != (
            #[trigger] self.entries@[j]).0
    }

    /// What the table holds for the address of an entry.
    proof fn lemma_entry(self, i: int)
        requires
            self.well_formed(),
            0 <= i < self.entries.len(),
        ensures
            self@.contains_key(self.entries@[i].0),
            self@[self.entries@[i].0] == self.entries@[i].1,
    {
        let ip = self.entries@[i].0;
        assert(self.holds_at(i, ip));
        let j = choose|j: int| self.holds_at(j, ip);
        assert(self.holds_at(j, ip));
    }

    /// Every address of the table has an entry.
    proof fn lemma_key(self, ip: IpAddr) -> (i: int)
        requires
            self@.contains_key(ip),
        ensures
            self.holds_at(i, ip),
    {
        choose|i: int| self.holds_at(i, ip)
    }

    /// A table without connections.
    pub fn new() -> (table: ConnectionTable)
        ensures
            table@ == Map::<IpAddr, (ConnectionState, u128)>::empty(),
            table.well_formed(),
    {
        let table = ConnectionTable { entries: Vec::new() };
        assert(table@ =~= Map::empty());
        table
    }

    /// The place of the entry of `ip`.
    fn position(&self, ip: &IpAddr) -> (position: Option<usize>)
        ensures
            position matches Some(i) ==> self.holds_at(i as int, *ip),
            position is None ==> forall|i: int| !self.holds_at(i, *ip),
    {
        for i in 0..self.entries.len()
            invariant
                forall|j: int| 0 <= j < i ==> !self.holds_at(j, *ip),
        {
            if self.entries[i].0 == *ip {
                return Some(i);
            }
        }
        None
    }

    /// What the table holds for `ip`.
    pub fn get(&self, ip: &IpAddr) -> (entry: Option<&(ConnectionState, u128)>)
        requires
            self.well_formed(),
        ensures
            entry == if self@.contains_key(*ip) {
                Some(&self@[*ip])
            } else {
                None
            },
    {
        match self.position(ip) {
            Some(i) => {
                proof {
                    self.lemma_entry(i as int);
                }
                Some(&self.entries[i].1)
            },
            None => None,
        }
    }

    /// Takes the connection of `ip` out of the table.
    pub fn remove(&mut self, ip: &IpAddr)
        requires
            old(self).well_formed(),
        ensures
            final(self).well_formed(),
            final(self)@ == old(self)@.remove(*ip),
    {
        match self.position(ip) {
            Some(i) => {
                let ghost before = *self;
                self.entries.remove(i);
                proof {
                    let after = *self;
                    assert forall|key: IpAddr| #[trigger]
                        after@.contains_key(key) <==> before@.remove(*ip).contains_key(key) by {
                        if after@.contains_key(key) {
                            let j = after.lemma_key(key);
                            let k = if j < i { j } else { j + 1 };
                            assert(before.entries@[k] == after.entries@[j]);
                            before.lemma_entry(k);
                        }
                        if before@.remove(*ip).contains_key(key) {
                            let k = before.lemma_key(key);
                            let j = if k < i { k } else { k - 1 };
                            assert(after.entries@[j] == before.entries@[k]);
                            after.lemma_entry(j);
                        }
                    }
                    assert forall|key: IpAddr| #[trigger] after@.contains_key(key) implies after@[key]
                        == before@[key] by {
                        let j = after.lemma_key(key);
                        let k = if j < i { j } else { j + 1 };
                        assert(before.entries@[k] == after.entries@[j]);
                        before.lemma_entry(k);
                        after.lemma_entry(j);
                    }
                    assert(after@ =~= before@.remove(*ip));
                }
            },
            None => {
                assert(self@.remove(*ip) =~= self@);
            },
        }
    }

    /// Puts a connection of `ip` into the table, in place of one that is there.
    pub fn insert(&mut self, ip: IpAddr, state: ConnectionState, last_connected: u128)
        requires
            old(self).well_formed(),
        ensures
            final(self).well_formed(),
            final(self)@ == old(self)@.insert(ip, (state, last_connected)),
    {
        self.remove(&ip);
        let ghost before = *self;
        self.entries.push((ip, (state, last_connected)));
        proof {
            let after = *self;
            let last = before.entries.len() as int;
            assert forall|i: int| 0 <= i < last implies (#[trigger] before.entries@[i]).0 != ip by {
                before.lemma_entry(i);
            }
            assert(after.well_formed());
            after.lemma_entry(last);
            assert forall|key: IpAddr| key != ip implies (#[trigger] after@.contains_key(key)
                <==> before@.contains_key(key)) by {
                if after@.contains_key(key) {
                    let i = after.lemma_key(key);
                    before.lemma_entry(i);
                }
                if before@.contains_key(key) {
                    let i = before.lemma_key(key);
                    assert(after.entries@[i] == before.entries@[i]);
                    after.lemma_entry(i);
                }
            }
            assert forall|key: IpAddr| key != ip && #[trigger] after@.contains_key(key) implies
                after@[key] == before@[key] by {
                let i = after.lemma_key(key);
                before.lemma_entry(i);
                after.lemma_entry(i);
            }
            assert(after@ =~= before@.insert(ip, (state, last_connected)));
            assert(before@.insert(ip, (state, last_connected)) =~= old(self)@.insert(
                ip,
                (state, last_connected),
            ));
        }
    }

    /// The addresses of the connections that are idle at `now`, each once, in no order of note.
    pub fn idle(&self, now: u128) -> (idle: Vec<IpAddr>)
        requires
            self.well_formed(),
        ensures
            idle@.no_duplicates(),
            forall|ip: IpAddr| #[trigger]
                idle@.contains(ip) <==> self@.contains_key(ip) && is_idle(now, self@[ip].1),
            forall|ip: IpAddr| #[trigger]
                idle@.contains(ip) <==> self@.contains_key(ip) && now > self@[ip].1
                    + 30_000_000_000,
    {
        let mut idle: Vec<IpAddr> = Vec::new();
        for i in 0..self.entries.len()
            invariant
                self.well_formed(),
                idle@.no_duplicates(),
                forall|ip: IpAddr| #[trigger]
                    idle@.contains(ip) <==> exists|j: int|
                        0 <= j < i && #[trigger] self.holds_at(j, ip) && is_idle(
                            now,
                            self.entries@[j].1.1,
                        ),
        {
            let ghost before = idle@;
            let ip = self.entries[i].0;
            assert(self.holds_at(i as int, ip));
            let last_connected = self.entries[i].1.1;
            let no_response_since: u128 = if now > last_connected {
                now - last_connected
            } else {
                0
            };
            if no_response_since > IDLE_TIMEOUT_NANOS {
                assert(!idle@.contains(ip)) by {
                    if idle@.contains(ip) {
                        let j = choose|j: int|
                            0 <= j < i && #[trigger] self.holds_at(j, ip) && is_idle(
                                now,
                                self.entries@[j].1.1,
                            );
                        assert(self.entries@[j].0 != self.entries@[i as int].0);
                    }
                }
                idle.push(ip);
                assert(idle@[before.len() as int] == ip);
            }
            assert forall|other: IpAddr| #[trigger]
                idle@.contains(other) <==> exists|j: int|
                    0 <= j < i + 1 && #[trigger] self.holds_at(j, other) && is_idle(
                        now,
                        self.entries@[j].1.1,
                    ) by {
                if before.contains(other) {
                    let k = before.index_of(other);
                    assert(idle@[k] == other);
                }
                if idle@.contains(other) && !before.contains(other) {
                    assert(other == ip);
                }
            }
        }
        assert forall|ip: IpAddr| #[trigger]
            idle@.contains(ip) <==> self@.contains_key(ip) && is_idle(now, self@[ip].1) by {
            if idle@.contains(ip) {
                let j = choose|j: int|
                    0 <= j < self.entries.len() && #[trigger] self.holds_at(j, ip) && is_idle(
                        now,
                        self.entries@[j].1.1,
                    );
                self.lemma_entry(j);
            }
            if self@.contains_key(ip) && is_idle(now, self@[ip].1) {
                let j = self.lemma_key(ip);
                self.lemma_entry(j);
                assert(self.holds_at(j, ip));
            }
        }
        idle
    }
}

} // verus!
