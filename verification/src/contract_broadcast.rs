//! Claiming the coins of a dropped swap.
//!
//! The contract transactions go out first; once an outgoing contract has matured, the transaction
//! that spends it by its timelock goes out as well. The run names one task after the other, and
//! what came of it moves the run on.

use vstd::prelude::*;

use crate::transaction::{ScriptBuf, Transaction, TransactionView};

verus! {

/// Seconds between two looks at the chain.
pub const BLOCK_LOOKUP_INTERVAL_SECS: u64 = 600;

/// Seconds between two looks at the chain in an integration test.
pub const TEST_BLOCK_LOOKUP_INTERVAL_SECS: u64 = 10;

/// The task that a run has open.
#[derive(Debug, Clone, Copy, PartialEq, Eq, Structural)]
pub enum BroadcastStage {
    /// See whether the node knows the incoming contract.
    LookUpIncoming { index: usize },
    SendIncoming { index: usize },
    /// Remove the incoming swapcoin from the wallet.
    RemoveIncoming { index: usize },
    /// Write the wallet to disk, the incoming swapcoins gone.
    SaveIncoming,
    /// See whether the node knows the outgoing contract.
    LookUpOutgoing { index: usize },
    SendOutgoing { index: usize },
    /// See how deep the outgoing contract is buried.
    LookUpContract { index: usize },
    /// Send the transaction that spends the outgoing contract by its timelock.
    SendTimelocked { index: usize },
    /// Wait before the next look at the chain.
    Sleep,
    /// Remove the outgoing swapcoin from the wallet.
    RemoveOutgoing { index: usize },
    Sync,
    /// Write the wallet to disk, the outgoing swapcoins gone.
    SaveOutgoing,
    /// Shut the maker down, in an integration test.
    Shutdown,
    Finished,
}

/// A task of a run.
pub enum BroadcastTask<'a> {
    GetRawTransactionInfo { txid: [u8; 32] },
    SendRawTransaction(&'a Transaction),
    RemoveIncomingSwapcoin(&'a ScriptBuf),
    RemoveOutgoingSwapcoin(&'a ScriptBuf),
    SaveToDisk,
    Sync,
    Shutdown,
    Sleep { secs: u64 },
}

/// What came of a task.
pub enum BroadcastReport {
    /// The node gave no information on the transaction.
    Unknown,
    /// The node knows the transaction; a confirmed one comes with its confirmations.
    Known { confirmations: Option<u32> },
    /// The task is done.
    Done,
}

/// An outgoing contract: what it is kept under in the wallet, the contract transaction, the blocks
/// until it matures, and the transaction that then spends it.
pub type OutgoingContract = ((ScriptBuf, Transaction), (u16, Transaction));

/// An incoming contract: what it is kept under in the wallet, and the contract transaction.
pub type IncomingContract = (ScriptBuf, Transaction);

/// A claim under way.
pub struct BroadcastRun {
    pub outgoings: Vec<OutgoingContract>,
    pub incomings: Vec<IncomingContract>,
    pub integration_test: bool,
    /// The outgoing contracts whose timelocked transaction went out, in that order.
    pub timelock_broadcasted: Vec<usize>,
    pub stage: BroadcastStage,
}

/// What a run rests on of an outgoing contract.
pub struct OutgoingView {
    pub contract: TransactionView,
    pub timelock: u16,
    pub timelocked: TransactionView,
}

/// A [BroadcastRun] by what its transactions hold.
pub struct BroadcastView {
    pub outgoings: Seq<OutgoingView>,
    pub incomings: Seq<TransactionView>,
    pub integration_test: bool,
    pub timelock_broadcasted: Seq<int>,
    pub stage: BroadcastStage,
}

/// An [OutgoingContract] by what its transactions hold.
pub open spec fn outgoing_view(contract: OutgoingContract) -> OutgoingView {
    OutgoingView {
        contract: contract.0.1@,
        timelock: contract.1.0,
        timelocked: contract.1.1@,
    }
}

impl View for BroadcastRun {
    type V = BroadcastView;

    open spec fn view(&self) -> BroadcastView {
        BroadcastView {
            outgoings: self.outgoings@.map_values(|c: OutgoingContract| outgoing_view(c)),
            incomings: self.incomings@.map_values(|c: IncomingContract| c.1@),
            integration_test: self.integration_test,
            timelock_broadcasted: self.timelock_broadcasted@.map_values(|i: usize| i as int),
            stage: self.stage,
        }
    }
}

impl BroadcastView {
    /// Whether the timelocked transaction of the outgoing contract at `index` went out.
    pub open spec fn timelock_sent(self, index: int) -> bool {
        exists|k: int|
            0 <= k < self.timelock_broadcasted.len() && self.outgoings[(
            #[trigger] self.timelock_broadcasted[k])].timelocked == self.outgoings[index].timelocked
    }

    /// Whether a report says that the outgoing contract at `index` has matured: it has more
    /// confirmations than its timelock.
    pub open spec fn matured(self, index: int, report: BroadcastReport) -> bool {
        report matches BroadcastReport::Known { confirmations: Some(confirmations) }
            && confirmations > self.outgoings[index].timelock
    }

    /// The task from the incoming contract at `index` on.
    pub open spec fn incoming_stage(self, index: nat) -> BroadcastStage {
        if index < self.incomings.len() {
            BroadcastStage::LookUpIncoming { index: index as usize }
        } else {
            BroadcastStage::SaveIncoming
        }
    }

    /// The task from the outgoing contract at `index` on.
    pub open spec fn outgoing_stage(self, index: nat) -> BroadcastStage {
        if index < self.outgoings.len() {
            BroadcastStage::LookUpOutgoing { index: index as usize }
        } else {
            self.scan_stage(0)
        }
    }

    /// The task in a look at the chain from the outgoing contract at `index` on: the next contract
    /// whose timelocked transaction did not go out.
    pub open spec fn scan_stage(self, index: nat) -> BroadcastStage
        decreases self.outgoings.len() - index,
    {
        if index >= self.outgoings.len() {
            self.scanned_stage()
        } else if self.timelock_sent(index as int) {
            self.scan_stage(index + 1)
        } else {
            BroadcastStage::LookUpContract { index: index as usize }
        }
    }

    /// The task behind a look at the chain: the wallet is cleared when as many timelocked
    /// transactions went out as there are outgoing contracts.
    pub open spec fn scanned_stage(self) -> BroadcastStage {
        if self.timelock_broadcasted.len() == self.outgoings.len() {
            self.removal_stage(0)
        } else {
            BroadcastStage::Sleep
        }
    }

    /// The task in clearing the wallet from the outgoing contract at `index` on.
    pub open spec fn removal_stage(self, index: nat) -> BroadcastStage {
        if index < self.outgoings.len() {
            BroadcastStage::RemoveOutgoing { index: index as usize }
        } else {
            BroadcastStage::Sync
        }
    }

    /// The run at another task.
    pub open spec fn at(self, stage: BroadcastStage) -> BroadcastView {
        BroadcastView { stage, ..self }
    }

    /// The run with one timelocked transaction more gone out.
    pub open spec fn with_sent(self, index: int) -> BroadcastView {
        BroadcastView { timelock_broadcasted: self.timelock_broadcasted.push(index), ..self }
    }

    /// Whether `report` reports on the open task.
    pub open spec fn accepts(self, report: BroadcastReport) -> bool {
        match self.stage {
            BroadcastStage::LookUpIncoming { .. } => !(report is Done),
            BroadcastStage::LookUpOutgoing { .. } => !(report is Done),
            BroadcastStage::LookUpContract { .. } => !(report is Done),
            BroadcastStage::Finished => false,
            _ => report is Done,
        }
    }

    /// The run once the open task is reported on.
    pub open spec fn after(self, report: BroadcastReport) -> BroadcastView {
        match self.stage {
            BroadcastStage::LookUpIncoming { index } => if report is Known {
                self.at(BroadcastStage::RemoveIncoming { index })
            } else {
                self.at(BroadcastStage::SendIncoming { index })
            },
            BroadcastStage::SendIncoming { index } => self.at(
                BroadcastStage::RemoveIncoming { index },
            ),
            BroadcastStage::RemoveIncoming { index } => self.at(
                self.incoming_stage((index + 1) as nat),
            ),
            BroadcastStage::SaveIncoming => self.at(self.outgoing_stage(0)),
            BroadcastStage::LookUpOutgoing { index } => if report is Known {
                self.at(self.outgoing_stage((index + 1) as nat))
            } else {
                self.at(BroadcastStage::SendOutgoing { index })
            },
            BroadcastStage::SendOutgoing { index } => self.at(
                self.outgoing_stage((index + 1) as nat),
            ),
            BroadcastStage::LookUpContract { index } => if self.matured(index as int, report) {
                self.at(BroadcastStage::SendTimelocked { index })
            } else {
                self.at(self.scan_stage((index + 1) as nat))
            },
            BroadcastStage::SendTimelocked { index } => {
                let sent = self.with_sent(index as int);
                sent.at(sent.scan_stage((index + 1) as nat))
            },
            BroadcastStage::Sleep => self.at(self.scan_stage(0)),
            BroadcastStage::RemoveOutgoing { index } => self.at(
                self.removal_stage((index + 1) as nat),
            ),
            BroadcastStage::Sync => self.at(BroadcastStage::SaveOutgoing),
            BroadcastStage::SaveOutgoing => self.at(
                if self.integration_test {
                    BroadcastStage::Shutdown
                } else {
                    BroadcastStage::Finished
                },
            ),
            BroadcastStage::Shutdown => self.at(BroadcastStage::Finished),
            BroadcastStage::Finished => self,
        }
    }

    /// The wallet is being cleared, or is.
    pub open spec fn closing(self) -> bool {
        match self.stage {
            BroadcastStage::RemoveOutgoing { .. } => true,
            BroadcastStage::Sync => true,
            BroadcastStage::SaveOutgoing => true,
            BroadcastStage::Shutdown => true,
            BroadcastStage::Finished => true,
            _ => false,
        }
    }

    /// The contracts are still going out.
    pub open spec fn opening(self) -> bool {
        match self.stage {
            BroadcastStage::LookUpIncoming { .. } => true,
            BroadcastStage::SendIncoming { .. } => true,
            BroadcastStage::RemoveIncoming { .. } => true,
            BroadcastStage::SaveIncoming => true,
            BroadcastStage::LookUpOutgoing { .. } => true,
            BroadcastStage::SendOutgoing { .. } => true,
            _ => false,
        }
    }

    /// The timelocked transactions that went out belong to outgoing contracts and differ.
    pub open spec fn sent_once(self) -> bool {
        &&& forall|k: int|
            0 <= k < self.timelock_broadcasted.len() ==> 0 <= #[trigger] self.timelock_broadcasted[k]
                < self.outgoings.len()
        &&& forall|k: int, l: int|
            0 <= k < l < self.timelock_broadcasted.len()
                ==> self.outgoings[(#[trigger] self.timelock_broadcasted[k])].timelocked
                != self.outgoings[(#[trigger] self.timelock_broadcasted[l])].timelocked
    }

    /// What holds of a run at every task.
    pub open spec fn well_formed(self) -> bool {
        &&& self.outgoings.len() <= usize::MAX
        &&& self.incomings.len() <= usize::MAX
        &&& self.sent_once()
        &&& self.opening() ==> self.timelock_broadcasted.len() == 0
        &&& self.closing() ==> self.timelock_broadcasted.len() == self.outgoings.len()
        &&& self.stage is Sleep ==> self.timelock_broadcasted.len() != self.outgoings.len()
        &&& match self.stage {
            BroadcastStage::LookUpIncoming { index } => index < self.incomings.len(),
            BroadcastStage::SendIncoming { index } => index < self.incomings.len(),
            BroadcastStage::RemoveIncoming { index } => index < self.incomings.len(),
            BroadcastStage::LookUpOutgoing { index } => index < self.outgoings.len(),
            BroadcastStage::SendOutgoing { index } => index < self.outgoings.len(),
            BroadcastStage::LookUpContract { index } => index < self.outgoings.len()
                && !self.timelock_sent(index as int),
            BroadcastStage::SendTimelocked { index } => index < self.outgoings.len()
                && !self.timelock_sent(index as int),
            BroadcastStage::RemoveOutgoing { index } => index < self.outgoings.len(),
            _ => true,
        }
    }
}

impl BroadcastView {
    /// The run before its first task.
    pub open spec fn start(
        outgoings: Seq<OutgoingView>,
        incomings: Seq<TransactionView>,
        integration_test: bool,
    ) -> BroadcastView {
        let run = BroadcastView {
            outgoings,
            incomings,
            integration_test,
            timelock_broadcasted: Seq::empty(),
            stage: BroadcastStage::SaveIncoming,
        };
        run.at(run.incoming_stage(0))
    }
}

impl BroadcastRun {
    /// The task that is open, `None` when the run is finished.
    pub open spec fn open_task(self) -> Option<BroadcastTask<'static>> {
        match self.stage {
            BroadcastStage::LookUpIncoming { index } => Some(
                BroadcastTask::GetRawTransactionInfo {
                    txid: self.incomings@[index as int].1@.txid(),
                },
            ),
            BroadcastStage::SendIncoming { index } => Some(
                BroadcastTask::SendRawTransaction(&self.incomings@[index as int].1),
            ),
            BroadcastStage::RemoveIncoming { index } => Some(
                BroadcastTask::RemoveIncomingSwapcoin(&self.incomings@[index as int].0),
            ),
            BroadcastStage::SaveIncoming => Some(BroadcastTask::SaveToDisk),
            BroadcastStage::LookUpOutgoing { index } => Some(
                BroadcastTask::GetRawTransactionInfo {
                    txid: self.outgoings@[index as int].0.1@.txid(),
                },
            ),
            BroadcastStage::SendOutgoing { index } => Some(
                BroadcastTask::SendRawTransaction(&self.outgoings@[index as int].0.1),
            ),
            BroadcastStage::LookUpContract { index } => Some(
                BroadcastTask::GetRawTransactionInfo {
                    txid: self.outgoings@[index as int].0.1@.txid(),
                },
            ),
            BroadcastStage::SendTimelocked { index } => Some(
                BroadcastTask::SendRawTransaction(&self.outgoings@[index as int].1.1),
            ),
            BroadcastStage::Sleep => Some(
                BroadcastTask::Sleep {
                    secs: if self.integration_test {
                        TEST_BLOCK_LOOKUP_INTERVAL_SECS
                    } else {
                        BLOCK_LOOKUP_INTERVAL_SECS
                    },
                },
            ),
            BroadcastStage::RemoveOutgoing { index } => Some(
                BroadcastTask::RemoveOutgoingSwapcoin(&self.outgoings@[index as int].0.0),
            ),
            BroadcastStage::Sync => Some(BroadcastTask::Sync),
            BroadcastStage::SaveOutgoing => Some(BroadcastTask::SaveToDisk),
            BroadcastStage::Shutdown => Some(BroadcastTask::Shutdown),
            BroadcastStage::Finished => None,
        }
    }

    /// The task that is open, `None` when the run is finished.
    pub fn task(&self) -> (task: Option<BroadcastTask<'_>>)
        requires
            self@.well_formed(),
        ensures
            task == self.open_task(),
    {
        match self.stage {
            BroadcastStage::LookUpIncoming { index } => Some(
                BroadcastTask::GetRawTransactionInfo { txid: self.incomings[index].1.txid() },
            ),
            BroadcastStage::SendIncoming { index } => Some(
                BroadcastTask::SendRawTransaction(&self.incomings[index].1),
            ),
            BroadcastStage::RemoveIncoming { index } => Some(
                BroadcastTask::RemoveIncomingSwapcoin(&self.incomings[index].0),
            ),
            BroadcastStage::SaveIncoming => Some(BroadcastTask::SaveToDisk),
            BroadcastStage::LookUpOutgoing { index } => Some(
                BroadcastTask::GetRawTransactionInfo { txid: self.outgoings[index].0.1.txid() },
            ),
            BroadcastStage::SendOutgoing { index } => Some(
                BroadcastTask::SendRawTransaction(&self.outgoings[index].0.1),
            ),
            BroadcastStage::LookUpContract { index } => Some(
                BroadcastTask::GetRawTransactionInfo { txid: self.outgoings[index].0.1.txid() },
            ),
            BroadcastStage::SendTimelocked { index } => Some(
                BroadcastTask::SendRawTransaction(&self.outgoings[index].1.1),
            ),
            BroadcastStage::Sleep => {
                if self.integration_test {
                    Some(BroadcastTask::Sleep { secs: TEST_BLOCK_LOOKUP_INTERVAL_SECS })
                } else {
                    Some(BroadcastTask::Sleep { secs: BLOCK_LOOKUP_INTERVAL_SECS })
                }
            },
            BroadcastStage::RemoveOutgoing { index } => Some(
                BroadcastTask::RemoveOutgoingSwapcoin(&self.outgoings[index].0.0),
            ),
            BroadcastStage::Sync => Some(BroadcastTask::Sync),
            BroadcastStage::SaveOutgoing => Some(BroadcastTask::SaveToDisk),
            BroadcastStage::Shutdown => Some(BroadcastTask::Shutdown),
            BroadcastStage::Finished => None,
        }
    }

    /// Whether the timelocked transaction of the outgoing contract at `index` went out.
    fn is_timelock_sent(&self, index: usize) -> (sent: bool)
        requires
            index < self.outgoings.len(),
            self@.sent_once(),
        ensures
            sent == self@.timelock_sent(index as int),
    {
        for k in 0..self.timelock_broadcasted.len()
            invariant
                index < self.outgoings.len(),
                self@.sent_once(),
                forall|l: int|
                    0 <= l < k ==> self@.outgoings[(
                    #[trigger] self@.timelock_broadcasted[l])].timelocked
                        != self@.outgoings[index as int].timelocked,
        {
            let sent = self.timelock_broadcasted[k];
            assert(self@.timelock_broadcasted[k as int] == sent);
            if self.outgoings[sent].1.1.same_as(&self.outgoings[index].1.1) {
                return true;
            }
        }
        false
    }

    /// The task in a look at the chain from the outgoing contract at `index` on.
    fn next_in_scan(&self, index: usize) -> (stage: BroadcastStage)
        requires
            index <= self.outgoings.len(),
            self@.sent_once(),
        ensures
            stage == self@.scan_stage(index as nat),
    {
        let mut next: usize = index;
        while next < self.outgoings.len()
            invariant
                next <= self.outgoings.len(),
                self@.sent_once(),
                self@.scan_stage(index as nat) == self@.scan_stage(next as nat),
            decreases self.outgoings.len() - next,
        {
            if !self.is_timelock_sent(next) {
                return BroadcastStage::LookUpContract { index: next };
            }
            next = next + 1;
        }
        if self.timelock_broadcasted.len() == self.outgoings.len() {
            self.next_in_removal(0)
        } else {
            BroadcastStage::Sleep
        }
    }

    /// The task in clearing the wallet from the outgoing contract at `index` on.
    fn next_in_removal(&self, index: usize) -> (stage: BroadcastStage)
        ensures
            stage == self@.removal_stage(index as nat),
    {
        if index < self.outgoings.len() {
            BroadcastStage::RemoveOutgoing { index }
        } else {
            BroadcastStage::Sync
        }
    }

    /// The task from the outgoing contract at `index` on.
    fn next_outgoing(&self, index: usize) -> (stage: BroadcastStage)
        requires
            self@.sent_once(),
        ensures
            stage == self@.outgoing_stage(index as nat),
    {
        if index < self.outgoings.len() {
            BroadcastStage::LookUpOutgoing { index }
        } else {
            self.next_in_scan(0)
        }
    }

    /// The task from the incoming contract at `index` on.
    fn next_incoming(&self, index: usize) -> (stage: BroadcastStage)
        ensures
            stage == self@.incoming_stage(index as nat),
    {
        if index < self.incomings.len() {
            BroadcastStage::LookUpIncoming { index }
        } else {
            BroadcastStage::SaveIncoming
        }
    }

    /// Moves the run on, the open task reported on.
    pub fn resume(&mut self, report: BroadcastReport)
        requires
            old(self)@.well_formed(),
            old(self)@.accepts(report),
        ensures
            final(self)@ == old(self)@.after(report),
            final(self)@.well_formed(),
            final(self).outgoings == old(self).outgoings,
            final(self).incomings == old(self).incomings,
    {
        proof {
            lemma_after(self@, report);
        }
        let known = match report {
            BroadcastReport::Known { .. } => true,
            _ => false,
        };
        let stage = match self.stage {
            BroadcastStage::LookUpIncoming { index } => {
                if known {
                    BroadcastStage::RemoveIncoming { index }
                } else {
                    BroadcastStage::SendIncoming { index }
                }
            },
            BroadcastStage::SendIncoming { index } => BroadcastStage::RemoveIncoming { index },
            BroadcastStage::RemoveIncoming { index } => self.next_incoming(index + 1),
            BroadcastStage::SaveIncoming => self.next_outgoing(0),
            BroadcastStage::LookUpOutgoing { index } => {
                if known {
                    self.next_outgoing(index + 1)
                } else {
                    BroadcastStage::SendOutgoing { index }
                }
            },
            BroadcastStage::SendOutgoing { index } => self.next_outgoing(index + 1),
            BroadcastStage::LookUpContract { index } => match report {
                BroadcastReport::Known { confirmations: Some(confirmations) } => {
                    if confirmations > self.outgoings[index].1.0 as u32 {
                        BroadcastStage::SendTimelocked { index }
                    } else {
                        self.next_in_scan(index + 1)
                    }
                },
                _ => self.next_in_scan(index + 1),
            },
            BroadcastStage::SendTimelocked { index } => {
                proof {
                    lemma_with_sent(self@, index as int);
                }
                self.timelock_broadcasted.push(index);
                assert(self@.timelock_broadcasted =~= old(self)@.timelock_broadcasted.push(
                    index as int,
                ));
                self.next_in_scan(index + 1)
            },
            BroadcastStage::Sleep => self.next_in_scan(0),
            BroadcastStage::RemoveOutgoing { index } => self.next_in_removal(index + 1),
            BroadcastStage::Sync => BroadcastStage::SaveOutgoing,
            BroadcastStage::SaveOutgoing => {
                if self.integration_test {
                    BroadcastStage::Shutdown
                } else {
                    BroadcastStage::Finished
                }
            },
            BroadcastStage::Shutdown => BroadcastStage::Finished,
            BroadcastStage::Finished => BroadcastStage::Finished,
        };
        self.stage = stage;
    }
}

/// Where a look at the chain goes on, or ends.
pub proof fn lemma_scan_stage(run: BroadcastView, index: nat)
    requires
        index <= run.outgoings.len() <= usize::MAX,
    ensures
        match run.scan_stage(index) {
            BroadcastStage::LookUpContract { index: next } => index <= next < run.outgoings.len()
                && !run.timelock_sent(next as int),
            BroadcastStage::Sleep => run.timelock_broadcasted.len() != run.outgoings.len(),
            BroadcastStage::RemoveOutgoing { index: first } => first == 0 < run.outgoings.len()
                && run.timelock_broadcasted.len() == run.outgoings.len(),
            BroadcastStage::Sync => run.outgoings.len() == 0 && run.timelock_broadcasted.len() == 0,
            _ => false,
        },
    decreases run.outgoings.len() - index,
{
    if index < run.outgoings.len() && run.timelock_sent(index as int) {
        lemma_scan_stage(run, index + 1);
    }
}

/// Sending the timelocked transaction of a contract whose own did not go out keeps those that went
/// out different.
pub(crate) proof fn lemma_with_sent(run: BroadcastView, index: int)
    requires
        run.sent_once(),
        0 <= index < run.outgoings.len(),
        !run.timelock_sent(index),
    ensures
        run.with_sent(index).sent_once(),
{
    let sent = run.with_sent(index);
    assert forall|k: int, l: int| 0 <= k < l < sent.timelock_broadcasted.len() implies sent.outgoings[(
    #[trigger] sent.timelock_broadcasted[k])].timelocked != sent.outgoings[(
    #[trigger] sent.timelock_broadcasted[l])].timelocked by {
        assert(sent.timelock_broadcasted[k] == run.timelock_broadcasted[k]);
        if l < run.timelock_broadcasted.len() {
            assert(sent.timelock_broadcasted[l] == run.timelock_broadcasted[l]);
        }
    }
}

/// A report keeps a run well formed. It leads to sending a timelocked transaction only where it
/// says that the contract has matured, and to removing an incoming swapcoin only from a task on it.
pub(crate) proof fn lemma_after(run: BroadcastView, report: BroadcastReport)
    requires
        run.well_formed(),
        run.accepts(report),
    ensures
        run.after(report).well_formed(),
        run.after(report).stage matches BroadcastStage::SendTimelocked { index } ==> run.stage == (
        BroadcastStage::LookUpContract { index }) && run.matured(index as int, report),
        run.after(report).stage is RemoveIncoming ==> run.stage is LookUpIncoming
            || run.stage is SendIncoming,
{
    let after = run.after(report);
    match run.stage {
        BroadcastStage::SaveIncoming => {
            lemma_scan_stage(run, 0);
        },
        BroadcastStage::LookUpOutgoing { .. } => {
            lemma_scan_stage(run, 0);
        },
        BroadcastStage::SendOutgoing { .. } => {
            lemma_scan_stage(run, 0);
        },
        BroadcastStage::LookUpContract { index } => {
            lemma_scan_stage(run, (index + 1) as nat);
        },
        BroadcastStage::SendTimelocked { index } => {
            lemma_with_sent(run, index as int);
            lemma_scan_stage(run.with_sent(index as int), (index + 1) as nat);
        },
        BroadcastStage::Sleep => {
            lemma_scan_stage(run, 0);
        },
        _ => {},
    }
    assert(after.sent_once());
    if let BroadcastStage::LookUpContract { index } = after.stage {
        assert(!after.timelock_sent(index as int));
    }
    if let BroadcastStage::SendTimelocked { index } = after.stage {
        assert(!after.timelock_sent(index as int));
    }
}

/// Begins to broadcast the contracts of a dropped swap, and to claim its outgoing coins by their
/// timelocks.
pub fn broadcast_contracts_and_timelocks(
    outgoings: Vec<OutgoingContract>,
    incomings: Vec<IncomingContract>,
    integration_test: bool,
) -> (run: BroadcastRun)
    ensures
        run.outgoings == outgoings,
        run.incomings == incomings,
        run@ == BroadcastView::start(
            outgoings@.map_values(|c: OutgoingContract| outgoing_view(c)),
            incomings@.map_values(|c: IncomingContract| c.1@),
            integration_test,
        ),
        run@.well_formed(),
{
    let mut run = BroadcastRun {
        outgoings,
        incomings,
        integration_test,
        timelock_broadcasted: Vec::new(),
        stage: BroadcastStage::SaveIncoming,
    };
    run.stage = run.next_incoming(0);
    assert(run@.timelock_broadcasted =~= Seq::<int>::empty());
    assert(run@.outgoings.len() == run.outgoings.len() && run@.incomings.len()
        == run.incomings.len());
    run
}

} // verus!
