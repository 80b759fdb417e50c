//! When a claim hands what to the node and to the wallet.
//!
//! The timetable is told by the tasks as they come out of a run and by the contracts as they were
//! handed in.

use vstd::prelude::*;

use crate::contract_broadcast::{
    BroadcastReport, BroadcastRun, BroadcastStage, BroadcastTask, BroadcastView, IncomingContract,
    OutgoingContract,
};
use crate::transaction::TransactionView;

verus! {

/// A course of a claim: `runs[k]` is the run once the first `k` reports are in.
pub struct BroadcastCourse {
    pub outgoings: Vec<OutgoingContract>,
    pub incomings: Vec<IncomingContract>,
    pub integration_test: bool,
    pub runs: Seq<BroadcastRun>,
    pub reports: Seq<BroadcastReport>,
}

impl BroadcastCourse {
    /// The course begins with the run as it is begun, each report is one on the task before it,
    /// and each run is the one before it with that report.
    pub open spec fn well_formed(self) -> bool {
        &&& self.runs.len() == self.reports.len() + 1
        &&& self.runs[0].outgoings == self.outgoings
        &&& self.runs[0].incomings == self.incomings
        &&& self.runs[0]@ == BroadcastView::start(
            self.outgoings@.map_values(
                |c: OutgoingContract| crate::contract_broadcast::outgoing_view(c),
            ),
            self.incomings@.map_values(|c: IncomingContract| c.1@),
            self.integration_test,
        )
        &&& forall|k: int|
            #![trigger self.reports[k]]
            0 <= k < self.reports.len() ==> {
                &&& self.runs[k]@.accepts(self.reports[k])
                &&& self.runs[k + 1]@ == self.runs[k]@.after(self.reports[k])
                &&& self.runs[k + 1].outgoings == self.runs[k].outgoings
                &&& self.runs[k + 1].incomings == self.runs[k].incomings
            }
    }

    /// The task that is open at a moment.
    pub open spec fn task(self, k: int) -> Option<BroadcastTask<'static>> {
        self.runs[k].open_task()
    }

    /// What is handed over to the node at a moment.
    pub open spec fn handed_over(self, k: int) -> Option<TransactionView> {
        match self.task(k) {
            Some(BroadcastTask::SendRawTransaction(tx)) => Some(tx@),
            _ => None,
        }
    }

    /// Everything that is handed over to the node before a moment, in its order.
    pub open spec fn all_handed_over(self, k: int) -> Seq<TransactionView>
        decreases k,
    {
        if k <= 0 {
            Seq::empty()
        } else {
            match self.handed_over(k - 1) {
                Some(tx) => self.all_handed_over(k - 1).push(tx),
                None => self.all_handed_over(k - 1),
            }
        }
    }

    /// The moment at which the incoming contract at `i` is looked up: behind the tasks on those
    /// before it, of which one that the node knows takes two and any other three.
    pub open spec fn incoming_moment(self, i: int) -> int
        decreases i,
    {
        if i <= 0 {
            0
        } else {
            let before = self.incoming_moment(i - 1);
            before + if self.reports[before] is Known {
                2int
            } else {
                3int
            }
        }
    }

    /// The moment at which the wallet is saved without the incoming swapcoins.
    pub open spec fn save_moment(self) -> int {
        self.incoming_moment(self.incomings@.len() as int)
    }

    /// The moment at which the outgoing contract at `i` is looked up to see whether it has to go
    /// out: behind the tasks on those before it, of which one that the node knows takes one and
    /// any other two.
    pub open spec fn outgoing_moment(self, i: int) -> int
        decreases i,
    {
        if i <= 0 {
            self.save_moment() + 1
        } else {
            let before = self.outgoing_moment(i - 1);
            before + if self.reports[before] is Known {
                1int
            } else {
                2int
            }
        }
    }

    /// The moment from which on the outgoing coins are claimed by their timelocks.
    pub open spec fn claim_moment(self) -> int {
        self.outgoing_moment(self.outgoings@.len() as int)
    }

    /// The incoming contracts before `i` that the node did not know when they were looked up.
    pub open spec fn unknown_incomings(self, i: int) -> Seq<TransactionView>
        decreases i,
    {
        if i <= 0 {
            Seq::empty()
        } else if self.reports[self.incoming_moment(i - 1)] is Known {
            self.unknown_incomings(i - 1)
        } else {
            self.unknown_incomings(i - 1).push(self.incomings@[i - 1].1@)
        }
    }

    /// The outgoing contracts before `i` that the node did not know when they were looked up.
    pub open spec fn unknown_outgoings(self, i: int) -> Seq<TransactionView>
        decreases i,
    {
        if i <= 0 {
            Seq::empty()
        } else if self.reports[self.outgoing_moment(i - 1)] is Known {
            self.unknown_outgoings(i - 1)
        } else {
            self.unknown_outgoings(i - 1).push(self.outgoings@[i - 1].0.1@)
        }
    }
}

/// What holds of a run at every moment of its course.
proof fn lemma_moment(course: BroadcastCourse, k: int)
    requires
        course.well_formed(),
        0 <= k <= course.reports.len(),
    ensures
        course.runs[k].outgoings == course.outgoings,
        course.runs[k].incomings == course.incomings,
        course.runs[k].integration_test == course.integration_test,
        course.runs[k]@.well_formed(),
        course.runs[k]@.outgoings.len() == course.outgoings@.len(),
        course.runs[k]@.incomings.len() == course.incomings@.len(),
        course.runs[k]@.stage == course.runs[k].stage,
        course.runs[k].stage is Finished ==> k == course.reports.len(),
        forall|i: int|
            0 <= i < course.outgoings@.len() ==> (#[trigger] course.runs[k]@.outgoings[i]).timelock
                == course.outgoings@[i].1.0 && course.runs[k]@.outgoings[i].timelocked
                == course.outgoings@[i].1.1@,
    decreases k,
{
    assert(course.runs[k].integration_test == course.runs[k]@.integration_test);
    if k == 0 {
        assert(course.runs[0]@.timelock_broadcasted =~= Seq::<int>::empty());
        assert(course.runs[0]@.outgoings.len() == course.outgoings.len());
        assert(course.runs[0]@.incomings.len() == course.incomings.len());
    } else {
        lemma_moment(course, k - 1);
        lemma_step(course, k - 1);
        crate::contract_broadcast::lemma_after(course.runs[k - 1]@, course.reports[k - 1]);
        assert(course.runs[k - 1].integration_test == course.runs[k - 1]@.integration_test);
        assert(course.runs[k]@.outgoings.len() == course.runs[k].outgoings.len());
        assert(course.runs[k]@.incomings.len() == course.runs[k].incomings.len());
    }
    if k < course.reports.len() {
        lemma_step(course, k);
    }
}

/// One report on.
proof fn lemma_step(course: BroadcastCourse, k: int)
    requires
        course.well_formed(),
        0 <= k < course.reports.len(),
    ensures
        course.runs[k]@.accepts(course.reports[k]),
        course.runs[k + 1]@ == course.runs[k]@.after(course.reports[k]),
        course.runs[k + 1].outgoings == course.runs[k].outgoings,
        course.runs[k + 1].incomings == course.runs[k].incomings,
{
    let report = course.reports[k];
}

/// The run at the turn of an incoming contract, or behind the last of them.
proof fn lemma_incoming(course: BroadcastCourse, i: int)
    requires
        course.well_formed(),
        0 <= i <= course.incomings@.len(),
        course.incoming_moment(i) <= course.reports.len(),
    ensures
        0 <= course.incoming_moment(i),
        course.runs[course.incoming_moment(i)].stage == course.runs[0]@.incoming_stage(i as nat),
    decreases i,
{
    if i > 0 {
        lemma_incoming(course, i - 1);
        lemma_incoming_tasks(course, i - 1);
    } else {
        lemma_moment(course, 0);
    }
}

/// The tasks on an incoming contract.
proof fn lemma_incoming_tasks(course: BroadcastCourse, i: int)
    requires
        course.well_formed(),
        0 <= i < course.incomings@.len(),
        0 <= course.incoming_moment(i) <= course.reports.len(),
        course.runs[course.incoming_moment(i)].stage == course.runs[0]@.incoming_stage(i as nat),
    ensures
        ({
            let m = course.incoming_moment(i);
            let next = course.incoming_moment(i + 1);
            let index = i as usize;
            &&& course.runs[m].stage == (BroadcastStage::LookUpIncoming { index })
            &&& m + 1 <= course.reports.len() && next == m + 2 ==> course.runs[m + 1].stage == (
            BroadcastStage::RemoveIncoming { index })
            &&& m + 1 <= course.reports.len() && next == m + 3 ==> course.runs[m + 1].stage == (
            BroadcastStage::SendIncoming { index })
            &&& m + 2 <= course.reports.len() && next == m + 3 ==> course.runs[m + 2].stage == (
            BroadcastStage::RemoveIncoming { index })
            &&& next <= course.reports.len() ==> course.runs[next].stage
                == course.runs[0]@.incoming_stage((i + 1) as nat)
        }),
{
    let m = course.incoming_moment(i);
    lemma_moment(course, 0);
    lemma_moment(course, m);
    if m < course.reports.len() {
        lemma_step(course, m);
        lemma_moment(course, m + 1);
        if m + 1 < course.reports.len() {
            lemma_step(course, m + 1);
            lemma_moment(course, m + 2);
            if m + 2 < course.reports.len() {
                lemma_step(course, m + 2);
                lemma_moment(course, m + 3);
            }
        }
    }
}

/// The run at the turn of an outgoing contract, or behind the last of them.
proof fn lemma_outgoing(course: BroadcastCourse, i: int)
    requires
        course.well_formed(),
        0 <= i <= course.outgoings@.len(),
        course.outgoing_moment(i) <= course.reports.len(),
    ensures
        0 <= course.save_moment() < course.outgoing_moment(i),
        course.runs[course.save_moment()].stage is SaveIncoming,
        course.runs[course.outgoing_moment(i)].stage
            == course.runs[course.outgoing_moment(i)]@.outgoing_stage(i as nat),
        course.runs[course.outgoing_moment(i)]@.timelock_broadcasted.len() == 0,
    decreases i,
{
    if i > 0 {
        lemma_outgoing(course, i - 1);
        lemma_outgoing_tasks(course, i - 1);
    } else {
        let save = course.save_moment();
        lemma_incoming(course, course.incomings@.len() as int);
        lemma_moment(course, 0);
        lemma_moment(course, save);
        lemma_step(course, save);
        lemma_moment(course, save + 1);
        crate::contract_broadcast_laws::lemma_scan_stage_frame(
            course.runs[save]@,
            course.runs[save + 1]@,
            0,
        );
    }
}

/// The tasks on an outgoing contract before the claim.
proof fn lemma_outgoing_tasks(course: BroadcastCourse, i: int)
    requires
        course.well_formed(),
        0 <= i < course.outgoings@.len(),
        0 <= course.outgoing_moment(i) <= course.reports.len(),
        course.runs[course.outgoing_moment(i)].stage
            == course.runs[course.outgoing_moment(i)]@.outgoing_stage(i as nat),
    ensures
        ({
            let m = course.outgoing_moment(i);
            let next = course.outgoing_moment(i + 1);
            let index = i as usize;
            &&& course.runs[m].stage == (BroadcastStage::LookUpOutgoing { index })
            &&& m + 1 <= course.reports.len() && next == m + 2 ==> course.runs[m + 1].stage == (
            BroadcastStage::SendOutgoing { index })
            &&& next <= course.reports.len() ==> course.runs[next].stage
                == course.runs[next]@.outgoing_stage((i + 1) as nat)
            &&& next <= course.reports.len() ==> course.runs[next]@.timelock_broadcasted.len() == 0
        }),
{
    let m = course.outgoing_moment(i);
    lemma_moment(course, m);
    if m < course.reports.len() {
        lemma_step(course, m);
        lemma_moment(course, m + 1);
        crate::contract_broadcast_laws::lemma_scan_stage_frame(
            course.runs[m]@,
            course.runs[m + 1]@,
            0,
        );
        if m + 1 < course.reports.len() && course.outgoing_moment(i + 1) == m + 2 {
            lemma_step(course, m + 1);
            lemma_moment(course, m + 2);
            crate::contract_broadcast_laws::lemma_scan_stage_frame(
                course.runs[m + 1]@,
                course.runs[m + 2]@,
                0,
            );
        }
    }
}

/// The incoming contracts come first, in their order. Each is looked up by its identifier; where
/// the node knows it, its swapcoin is removed next; where not, that very contract is handed over
/// to the node next, and its swapcoin is removed behind it. Then the wallet is saved.
pub proof fn law_timetable_of_an_incoming_contract(course: BroadcastCourse, i: int)
    requires
        course.well_formed(),
        0 <= i < course.incomings@.len(),
        course.incoming_moment(i) <= course.reports.len(),
    ensures
        ({
            let m = course.incoming_moment(i);
            let end = course.reports.len();
            let known = course.reports[m] is Known;
            let (redeemscript, contract) = course.incomings@[i];
            let hand_over = Some(BroadcastTask::SendRawTransaction(&contract));
            let remove = Some(BroadcastTask::RemoveIncomingSwapcoin(&redeemscript));
            &&& 0 <= m
            &&& course.task(m) == Some(
                BroadcastTask::GetRawTransactionInfo { txid: contract@.txid() },
            )
            &&& known && m + 1 <= end ==> course.task(m + 1) == remove
            &&& !known && m + 1 <= end ==> course.task(m + 1) == hand_over
            &&& !known && m + 2 <= end ==> course.task(m + 2) == remove
        }),
        course.save_moment() <= course.reports.len() ==> course.task(course.save_moment()) == Some(
            BroadcastTask::SaveToDisk,
        ),
{
    let m = course.incoming_moment(i);
    lemma_incoming(course, i);
    lemma_incoming_tasks(course, i);
    lemma_moment(course, 0);
    lemma_moment(course, m);
    if m + 1 <= course.reports.len() {
        lemma_moment(course, m + 1);
    }
    if m + 2 <= course.reports.len() {
        lemma_moment(course, m + 2);
    }
    if course.save_moment() <= course.reports.len() {
        lemma_incoming(course, course.incomings@.len() as int);
    }
}

/// Without incoming contracts the wallet is saved at once.
pub proof fn law_timetable_without_incoming_contracts(course: BroadcastCourse)
    requires
        course.well_formed(),
        course.incomings@.len() == 0,
    ensures
        course.task(0) == Some(BroadcastTask::SaveToDisk),
{
    lemma_incoming(course, 0);
    lemma_moment(course, 0);
}

/// The outgoing contracts come next, in their order. Each is looked up by its identifier; where the
/// node does not know it, that very contract is handed over to the node next.
pub proof fn law_timetable_of_an_outgoing_contract(course: BroadcastCourse, i: int)
    requires
        course.well_formed(),
        0 <= i < course.outgoings@.len(),
        course.outgoing_moment(i) <= course.reports.len(),
    ensures
        ({
            let m = course.outgoing_moment(i);
            let contract = course.outgoings@[i].0.1;
            &&& 0 <= m
            &&& course.task(m) == Some(
                BroadcastTask::GetRawTransactionInfo { txid: contract@.txid() },
            )
            &&& !(course.reports[m] is Known) && m + 1 <= course.reports.len() ==> course.task(
                m + 1,
            ) == Some(BroadcastTask::SendRawTransaction(&contract))
        }),
{
    let m = course.outgoing_moment(i);
    lemma_outgoing(course, i);
    lemma_outgoing_tasks(course, i);
    lemma_moment(course, m);
    if m + 1 <= course.reports.len() {
        lemma_moment(course, m + 1);
    }
}

/// Until the claim by the timelocks begins, the node is handed exactly the contracts that it did
/// not know when they were looked up, each of them once, the incoming ones before the outgoing
/// ones, and in their order.
pub proof fn law_each_unknown_contract_is_handed_over_once(course: BroadcastCourse)
    requires
        course.well_formed(),
        course.claim_moment() <= course.reports.len(),
    ensures
        course.all_handed_over(course.claim_moment()) == course.unknown_incomings(
            course.incomings@.len() as int,
        ) + course.unknown_outgoings(course.outgoings@.len() as int),
{
    lemma_handed_over_outgoing(course, course.outgoings@.len() as int);
}

proof fn lemma_handed_over_incoming(course: BroadcastCourse, i: int)
    requires
        course.well_formed(),
        0 <= i <= course.incomings@.len(),
        course.incoming_moment(i) <= course.reports.len(),
    ensures
        course.all_handed_over(course.incoming_moment(i)) == course.unknown_incomings(i),
    decreases i,
{
    if i > 0 {
        let m = course.incoming_moment(i - 1);
        lemma_handed_over_incoming(course, i - 1);
        law_timetable_of_an_incoming_contract(course, i - 1);
        reveal_with_fuel(BroadcastCourse::all_handed_over, 4);
        assert(course.all_handed_over(m + 1) == course.all_handed_over(m));
    }
}

proof fn lemma_handed_over_outgoing(course: BroadcastCourse, i: int)
    requires
        course.well_formed(),
        0 <= i <= course.outgoings@.len(),
        course.outgoing_moment(i) <= course.reports.len(),
    ensures
        course.all_handed_over(course.outgoing_moment(i)) == course.unknown_incomings(
            course.incomings@.len() as int,
        ) + course.unknown_outgoings(i),
    decreases i,
{
    let incomings = course.unknown_incomings(course.incomings@.len() as int);
    lemma_outgoing(course, i);
    if i > 0 {
        let m = course.outgoing_moment(i - 1);
        lemma_outgoing(course, i - 1);
        lemma_handed_over_outgoing(course, i - 1);
        law_timetable_of_an_outgoing_contract(course, i - 1);
        reveal_with_fuel(BroadcastCourse::all_handed_over, 3);
        assert(course.all_handed_over(m + 1) == course.all_handed_over(m));
        assert(course.all_handed_over(course.outgoing_moment(i)) =~= incomings
            + course.unknown_outgoings(i));
    } else {
        let save = course.save_moment();
        lemma_handed_over_incoming(course, course.incomings@.len() as int);
        assert(course.handed_over(save) is None);
        assert(course.all_handed_over(save + 1) == course.all_handed_over(save));
        assert(course.all_handed_over(course.outgoing_moment(0)) =~= incomings
            + course.unknown_outgoings(0));
    }
}

impl BroadcastCourse {
    /// Whether a transaction was handed over to the node in the claim, before a moment of it.
    pub open spec fn gone_out(self, k: int, tx: TransactionView) -> bool {
        exists|l: int| self.claim_moment() <= l < k && #[trigger] self.handed_over(l) == Some(tx)
    }

    /// How many transactions were handed over to the node in the claim, before a moment of it.
    pub open spec fn count_gone_out(self, k: int) -> int {
        self.all_handed_over(k).len() - self.all_handed_over(self.claim_moment()).len()
    }

    /// Whether the report at a moment says that the outgoing contract at `i` has more
    /// confirmations than its timelock.
    pub open spec fn reported_matured(self, k: int, i: int) -> bool {
        self.reports[k] matches BroadcastReport::Known { confirmations: Some(confirmations) }
            && confirmations > self.outgoings@[i].1.0
    }

    /// Whether a look at the chain begins at a moment: the claim begins, or a sleep is over.
    pub open spec fn look_begins(self, k: int) -> bool {
        &&& self.claim_moment() <= k <= self.reports.len()
        &&& k == self.claim_moment() || self.task(k - 1) matches Some(BroadcastTask::Sleep { .. })
    }

    /// The moment at which the turn of the outgoing contract at `i` comes in a look at the chain
    /// that began at `first`: behind those before it, of which one takes no task if its timelocked
    /// transaction has gone out, two if it is found matured, and one otherwise.
    pub open spec fn look_moment(self, first: int, i: int) -> int
        decreases i,
    {
        if i <= 0 {
            first
        } else {
            let before = self.look_moment(first, i - 1);
            if self.gone_out(before, self.outgoings@[i - 1].1.1@) {
                before
            } else if self.reported_matured(before, i - 1) {
                before + 2
            } else {
                before + 1
            }
        }
    }
}

/// What a run takes for gone out is what was handed over to the node in the claim.
proof fn lemma_claim(course: BroadcastCourse, k: int)
    requires
        course.well_formed(),
        course.claim_moment() <= k <= course.reports.len(),
    ensures
        0 < course.claim_moment(),
        !course.runs[k]@.opening(),
        course.runs[k]@.timelock_broadcasted.len() == course.count_gone_out(k),
        forall|i: int|
            0 <= i < course.outgoings@.len() ==> (#[trigger] course.runs[k]@.timelock_sent(i)
                <==> course.gone_out(k, course.outgoings@[i].1.1@)),
    decreases k,
{
    let first = course.claim_moment();
    lemma_outgoing(course, course.outgoings@.len() as int);
    lemma_moment(course, k);
    if k == first {
        crate::contract_broadcast::lemma_scan_stage(course.runs[k]@, 0);
    } else {
        lemma_claim(course, k - 1);
        lemma_moment(course, k - 1);
        lemma_step(course, k - 1);
        let before = course.runs[k - 1]@;
        let now = course.runs[k]@;
        lemma_stays_claiming(before, course.reports[k - 1]);
        assert forall|i: int| 0 <= i < course.outgoings@.len() implies (
        #[trigger] now.timelock_sent(i) <==> course.gone_out(k, course.outgoings@[i].1.1@)) by {
            let tx = course.outgoings@[i].1.1@;
            assert(before.timelock_sent(i) <==> course.gone_out(k - 1, tx));
            assert(before.outgoings[i].timelocked == tx);
            assert(course.gone_out(k, tx) <==> course.gone_out(k - 1, tx) || course.handed_over(
                k - 1,
            ) == Some(tx));
            if let BroadcastStage::SendTimelocked { index } = before.stage {
                crate::contract_broadcast_laws::lemma_sent_step(before, now, index as int, i);
                assert(before.outgoings[index as int].timelocked
                    == course.outgoings@[index as int].1.1@);
            } else {
                assert(now.timelock_broadcasted == before.timelock_broadcasted);
                lemma_same_sent(before, now, i);
            }
        }
    }
}

/// A claim stays one.
proof fn lemma_stays_claiming(run: BroadcastView, report: BroadcastReport)
    requires
        run.well_formed(),
        run.accepts(report),
        !run.opening(),
    ensures
        !run.after(report).opening(),
{
    match run.stage {
        BroadcastStage::LookUpContract { index } => {
            crate::contract_broadcast::lemma_scan_stage(run, (index + 1) as nat);
        },
        BroadcastStage::SendTimelocked { index } => {
            crate::contract_broadcast::lemma_scan_stage(
                run.with_sent(index as int),
                (index + 1) as nat,
            );
        },
        BroadcastStage::Sleep => {
            crate::contract_broadcast::lemma_scan_stage(run, 0);
        },
        _ => {},
    }
}

/// What went out does not rest on the open task.
proof fn lemma_same_sent(a: BroadcastView, b: BroadcastView, index: int)
    requires
        a.outgoings == b.outgoings,
        a.timelock_broadcasted == b.timelock_broadcasted,
    ensures
        a.timelock_sent(index) == b.timelock_sent(index),
{
}

/// The run at the turn of an outgoing contract in a look at the chain, or behind the last of them.
proof fn lemma_look(course: BroadcastCourse, first: int, i: int)
    requires
        course.well_formed(),
        course.look_begins(first),
        0 <= i <= course.outgoings@.len(),
        course.look_moment(first, i) <= course.reports.len(),
    ensures
        first <= course.look_moment(first, i),
        course.runs[course.look_moment(first, i)].stage == course.runs[course.look_moment(
            first,
            i,
        )]@.scan_stage(i as nat),
    decreases i,
{
    if i > 0 {
        let before = course.look_moment(first, i - 1);
        lemma_look(course, first, i - 1);
        lemma_look_tasks(course, before, i - 1);
    } else {
        lemma_outgoing(course, course.outgoings@.len() as int);
        lemma_moment(course, first);
        if first > course.claim_moment() {
            lemma_moment(course, first - 1);
            lemma_step(course, first - 1);
            crate::contract_broadcast_laws::lemma_scan_stage_frame(
                course.runs[first - 1]@,
                course.runs[first]@,
                0,
            );
        }
    }
}

/// The tasks on an outgoing contract in a look at the chain.
proof fn lemma_look_tasks(course: BroadcastCourse, m: int, i: int)
    requires
        course.well_formed(),
        0 <= i < course.outgoings@.len(),
        course.claim_moment() <= m <= course.reports.len(),
        course.runs[m].stage == course.runs[m]@.scan_stage(i as nat),
    ensures
        ({
            let tx = course.outgoings@[i].1.1@;
            let index = i as usize;
            let next = if course.gone_out(m, tx) {
                m
            } else if course.reported_matured(m, i) {
                m + 2
            } else {
                m + 1
            };
            &&& next != m ==> course.runs[m].stage == (BroadcastStage::LookUpContract { index })
            &&& next == m + 2 && m + 1 <= course.reports.len() ==> course.runs[m + 1].stage == (
            BroadcastStage::SendTimelocked { index })
            &&& next <= course.reports.len() ==> course.runs[next].stage
                == course.runs[next]@.scan_stage((i + 1) as nat)
        }),
{
    let tx = course.outgoings@[i].1.1@;
    lemma_claim(course, m);
    lemma_moment(course, m);
    let run = course.runs[m]@;
    assert(run.timelock_sent(i) <==> course.gone_out(m, tx));
    assert(run.outgoings[i].timelock == course.outgoings@[i].1.0);
    if !course.gone_out(m, tx) && m < course.reports.len() {
        lemma_step(course, m);
        lemma_moment(course, m + 1);
        assert(run.matured(i, course.reports[m]) <==> course.reported_matured(m, i));
        let looked = course.runs[m + 1]@;
        if !course.reported_matured(m, i) {
            crate::contract_broadcast_laws::lemma_scan_stage_frame(run, looked, (i + 1) as nat);
        } else if m + 1 < course.reports.len() {
            lemma_step(course, m + 1);
            lemma_moment(course, m + 2);
            crate::contract_broadcast_laws::lemma_scan_stage_frame(
                looked.with_sent(i),
                course.runs[m + 2]@,
                (i + 1) as nat,
            );
        }
    }
}

/// A look at the chain takes the outgoing contracts in their order. One whose timelocked
/// transaction has gone out is passed over. Any other is looked up by the identifier of its
/// contract, and if that is found with more confirmations than its timelock, then its timelocked
/// transaction is handed over to the node next.
pub proof fn law_timetable_of_a_look_at_the_chain(course: BroadcastCourse, first: int, i: int)
    requires
        course.well_formed(),
        course.look_begins(first),
        0 <= i < course.outgoings@.len(),
        course.look_moment(first, i) <= course.reports.len(),
    ensures
        ({
            let m = course.look_moment(first, i);
            let ((_, contract), (timelock, timelocked)) = course.outgoings@[i];
            &&& first <= m
            &&& !course.gone_out(m, timelocked@) ==> {
                &&& course.task(m) == Some(
                    BroadcastTask::GetRawTransactionInfo { txid: contract@.txid() },
                )
                &&& m + 1 <= course.reports.len() ==> {
                    course.reports[m] matches BroadcastReport::Known {
                        confirmations: Some(confirmations),
                    } ==> confirmations > timelock ==> course.task(m + 1) == Some(
                        BroadcastTask::SendRawTransaction(&timelocked),
                    )
                }
            }
        }),
{
    let m = course.look_moment(first, i);
    lemma_look(course, first, i);
    lemma_claim(course, m);
    lemma_look_tasks(course, m, i);
    lemma_moment(course, m);
    if m + 1 <= course.reports.len() {
        lemma_moment(course, m + 1);
    }
}

/// Behind a look at the chain, if as many timelocked transactions have gone out as there are
/// outgoing contracts, the wallet is cleared: every outgoing swapcoin is removed in its order,
/// the wallet is synced and saved, and in an integration test the maker is shut down; then there
/// is nothing more to do. Otherwise there is a sleep of ten minutes, in an integration test of ten
/// seconds, and after it a new look at the chain begins.
pub proof fn law_timetable_behind_a_look_at_the_chain(course: BroadcastCourse, first: int, k: int)
    requires
        course.well_formed(),
        course.look_begins(first),
        course.look_moment(first, course.outgoings@.len() as int) <= k <= course.reports.len(),
    ensures
        ({
            let n = course.outgoings@.len();
            let m = course.look_moment(first, n as int);
            let j = k - m;
            &&& first <= m
            &&& course.count_gone_out(m) == n ==> {
                &&& j < n ==> course.task(k) == Some(
                    BroadcastTask::RemoveOutgoingSwapcoin(&course.outgoings@[j].0.0),
                )
                &&& j == n ==> course.task(k) == Some(BroadcastTask::Sync)
                &&& j == n + 1 ==> course.task(k) == Some(BroadcastTask::SaveToDisk)
                &&& j == n + 2 ==> course.task(k) == if course.integration_test {
                    Some(BroadcastTask::Shutdown)
                } else {
                    None
                }
                &&& j == n + 3 ==> course.task(k) is None
                &&& j <= n + 3
            }
            &&& course.count_gone_out(m) != n ==> {
                &&& course.task(m) == Some(
                    BroadcastTask::Sleep {
                        secs: if course.integration_test {
                            10
                        } else {
                            600
                        },
                    },
                )
                &&& m + 1 <= course.reports.len() ==> course.look_begins(m + 1)
            }
        }),
{
    let n = course.outgoings@.len();
    let m = course.look_moment(first, n as int);
    lemma_look(course, first, n as int);
    lemma_claim(course, m);
    lemma_moment(course, m);
    lemma_moment(course, k);
    if course.count_gone_out(m) == n {
        lemma_clearing(course, m, k);
    }
}

/// Clearing the wallet.
proof fn lemma_clearing(course: BroadcastCourse, m: int, k: int)
    requires
        course.well_formed(),
        0 <= m <= k <= course.reports.len(),
        course.runs[m].stage == course.runs[m]@.removal_stage(0),
    ensures
        ({
            let n = course.outgoings@.len();
            let j = k - m;
            &&& j <= n ==> course.runs[k].stage == course.runs[k]@.removal_stage(j as nat)
            &&& j == n + 1 ==> course.runs[k].stage is SaveOutgoing
            &&& j == n + 2 ==> course.runs[k].stage == if course.integration_test {
                BroadcastStage::Shutdown
            } else {
                BroadcastStage::Finished
            }
            &&& j == n + 3 ==> course.runs[k].stage is Finished
            &&& j <= n + 3
        }),
    decreases k,
{
    lemma_moment(course, k);
    if k > m {
        lemma_clearing(course, m, k - 1);
        lemma_moment(course, k - 1);
        lemma_step(course, k - 1);
    }
}

/// Which reports are taken at every moment of every course: on a look-up that the node knows the
/// transaction, with whatever confirmations, or that it does not; on any other task that it is
/// done.
pub proof fn law_every_report_on_the_task_is_taken(
    course: BroadcastCourse,
    k: int,
    report: BroadcastReport,
)
    requires
        course.well_formed(),
        0 <= k <= course.reports.len(),
    ensures
        course.runs[k]@.well_formed(),
        course.runs[k]@.accepts(report) <==> match course.task(k) {
            Some(BroadcastTask::GetRawTransactionInfo { .. }) => report is Known
                || report is Unknown,
            Some(_) => report is Done,
            None => false,
        },
{
    lemma_moment(course, k);
}

/// Nothing is handed over to the node that was not asked for right before. Before the claim by the
/// timelocks it is the very transaction whose identifier was looked up and which the node did not
/// know. In the claim it is the timelocked transaction of an outgoing contract whose identifier was
/// looked up and which was found with more confirmations than its timelock.
pub proof fn law_what_is_handed_over_was_looked_up(course: BroadcastCourse, k: int)
    requires
        course.well_formed(),
        0 <= k <= course.reports.len(),
        course.handed_over(k) is Some,
    ensures
        k > 0,
        course.task(k - 1) matches Some(BroadcastTask::GetRawTransactionInfo { txid }) && ({
            ||| course.reports[k - 1] is Unknown && course.handed_over(k)->0.txid() == txid
            ||| exists|i: int|
                #![trigger course.outgoings@[i]]
                {
                    &&& 0 <= i < course.outgoings@.len()
                    &&& txid == course.outgoings@[i].0.1@.txid()
                    &&& course.reported_matured(k - 1, i)
                    &&& course.handed_over(k) == Some(course.outgoings@[i].1.1@)
                }
        }),
{
    lemma_moment(course, k);
    if k > 0 {
        lemma_moment(course, k - 1);
        lemma_step(course, k - 1);
        let before = course.runs[k - 1]@;
        lemma_sent_after_look_up(before, course.reports[k - 1]);
        if let BroadcastStage::SendTimelocked { index } = course.runs[k].stage {
            let i = index as int;
            assert(before.outgoings[i].timelock == course.outgoings@[i].1.0);
        }
    }
}

/// A sending task comes only behind the look-up of the same contract.
proof fn lemma_sent_after_look_up(run: BroadcastView, report: BroadcastReport)
    requires
        run.well_formed(),
        run.accepts(report),
    ensures
        match run.after(report).stage {
            BroadcastStage::SendIncoming { index } => run.stage == (
            BroadcastStage::LookUpIncoming { index }) && report is Unknown,
            BroadcastStage::SendOutgoing { index } => run.stage == (
            BroadcastStage::LookUpOutgoing { index }) && report is Unknown,
            BroadcastStage::SendTimelocked { index } => run.stage == (
            BroadcastStage::LookUpContract { index }) && run.matured(index as int, report),
            _ => true,
        },
{
    match run.stage {
        BroadcastStage::SaveIncoming => {
            crate::contract_broadcast::lemma_scan_stage(run, 0);
        },
        BroadcastStage::LookUpOutgoing { .. } => {
            crate::contract_broadcast::lemma_scan_stage(run, 0);
        },
        BroadcastStage::SendOutgoing { .. } => {
            crate::contract_broadcast::lemma_scan_stage(run, 0);
        },
        BroadcastStage::LookUpContract { index } => {
            crate::contract_broadcast::lemma_scan_stage(run, (index + 1) as nat);
        },
        BroadcastStage::SendTimelocked { index } => {
            crate::contract_broadcast::lemma_scan_stage(
                run.with_sent(index as int),
                (index + 1) as nat,
            );
        },
        BroadcastStage::Sleep => {
            crate::contract_broadcast::lemma_scan_stage(run, 0);
        },
        _ => {},
    }
}

/// In the claim, the node is handed no transaction twice.
pub proof fn law_nothing_is_handed_over_twice_in_the_claim(
    course: BroadcastCourse,
    earlier: int,
    later: int,
)
    requires
        course.well_formed(),
        course.claim_moment() <= earlier < later <= course.reports.len(),
        course.handed_over(earlier) is Some,
        course.handed_over(later) is Some,
    ensures
        course.handed_over(earlier) != course.handed_over(later),
{
    lemma_claim(course, later);
    lemma_moment(course, later);
    if let BroadcastStage::SendTimelocked { index } = course.runs[later].stage {
        let tx = course.outgoings@[index as int].1.1@;
        assert(!course.runs[later]@.timelock_sent(index as int));
        assert(!course.gone_out(later, tx));
        assert(course.handed_over(later) == Some(tx));
    }
}

/// An outgoing swapcoin is removed only when the timelocked transaction of every outgoing contract
/// was handed over to the node in the claim.
pub proof fn law_removed_only_when_every_timelocked_transaction_was_handed_over(
    course: BroadcastCourse,
    k: int,
    i: int,
)
    requires
        course.well_formed(),
        course.claim_moment() <= k <= course.reports.len(),
        course.task(k) matches Some(BroadcastTask::RemoveOutgoingSwapcoin(_)),
        0 <= i < course.outgoings@.len(),
    ensures
        course.gone_out(k, course.outgoings@[i].1.1@),
{
    lemma_claim(course, k);
    lemma_moment(course, k);
    crate::contract_broadcast_laws::law_wallet_is_cleared_only_when_all_went_out(course.runs[k]@);
    assert(course.runs[k]@.timelock_sent(i));
}

/// What a run hands over to the node is, at every stage, the transaction that the stage sends: that
/// of the contract at the index of the stage, as it was handed in.
pub proof fn law_open_task_hands_over_what_the_stage_sends(run: BroadcastRun)
    requires
        run@.well_formed(),
    ensures
        run@.sending() == match run.open_task() {
            Some(BroadcastTask::SendRawTransaction(tx)) => Some(tx@),
            _ => None,
        },
        match run.stage {
            BroadcastStage::SendIncoming { index } => run@.sending() == Some(
                run.incomings@[index as int].1@,
            ),
            BroadcastStage::SendOutgoing { index } => run@.sending() == Some(
                run.outgoings@[index as int].0.1@,
            ),
            BroadcastStage::SendTimelocked { index } => run@.sending() == Some(
                run.outgoings@[index as int].1.1@,
            ),
            _ => run@.sending() is None,
        },
{
    assert(run@.outgoings.len() == run.outgoings@.len());
    assert(run@.incomings.len() == run.incomings@.len());
}

} // verus!
