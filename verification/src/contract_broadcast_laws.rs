//! What a claim does over its whole course.

use vstd::prelude::*;

use crate::contract_broadcast::{BroadcastReport, BroadcastStage, BroadcastView, OutgoingView};
use crate::transaction::TransactionView;

verus! {

/// Different numbers below a bound, as many as the bound: every number below it is among them.
proof fn lemma_pigeonhole(numbers: Seq<int>, bound: nat, number: int)
    requires
        numbers.no_duplicates(),
        numbers.len() == bound,
        forall|k: int| 0 <= k < numbers.len() ==> 0 <= #[trigger] numbers[k] < bound,
        0 <= number < bound,
    ensures
        numbers.contains(number),
{
    let range = vstd::set_lib::set_int_range(0, bound as int);
    vstd::set_lib::lemma_int_range(0, bound as int);
    numbers.unique_seq_to_set();
    assert(numbers.to_set().subset_of(range)) by {
        assert forall|n: int| numbers.to_set().contains(n) implies range.contains(n) by {
            assert(numbers.contains(n));
        }
    }
    vstd::set_lib::lemma_len_subset(numbers.to_set(), range);
    vstd::set_lib::lemma_subset_equality(numbers.to_set(), range);
    assert(range.contains(number));
}

/// Different numbers below a bound, every number below it among them: they are as many as the
/// bound.
proof fn lemma_covering(numbers: Seq<int>, bound: nat)
    requires
        numbers.no_duplicates(),
        forall|k: int| 0 <= k < numbers.len() ==> 0 <= #[trigger] numbers[k] < bound,
        forall|n: int| 0 <= n < bound ==> #[trigger] numbers.contains(n),
    ensures
        numbers.len() == bound,
{
    let range = vstd::set_lib::set_int_range(0, bound as int);
    vstd::set_lib::lemma_int_range(0, bound as int);
    numbers.unique_seq_to_set();
    assert(numbers.to_set() =~= range) by {
        assert forall|n: int| numbers.to_set().contains(n) <==> range.contains(n) by {
            if numbers.to_set().contains(n) {
                assert(numbers.contains(n));
            }
            if range.contains(n) {
                assert(numbers.contains(n));
            }
        }
    }
}

/// Swapcoins leave the wallet only when the timelocked transaction of every outgoing contract
/// went out.
pub proof fn law_wallet_is_cleared_only_when_all_went_out(run: BroadcastView)
    requires
        run.well_formed(),
        run.closing(),
    ensures
        forall|i: int|
            0 <= i < run.outgoings.len() ==> #[trigger] run.timelock_broadcasted.contains(i),
        forall|i: int| 0 <= i < run.outgoings.len() ==> #[trigger] run.timelock_sent(i),
{
    assert forall|i: int| 0 <= i < run.outgoings.len() implies (
    #[trigger] run.timelock_broadcasted.contains(i)) && run.timelock_sent(i) by {
        lemma_pigeonhole(run.timelock_broadcasted, run.outgoings.len(), i);
        let k = run.timelock_broadcasted.index_of(i);
        assert(run.timelock_broadcasted[k] == i);
    }
    assert forall|i: int| 0 <= i < run.outgoings.len() implies #[trigger] run.timelock_sent(i) by {
        assert(run.timelock_broadcasted.contains(i));
    }
}

/// Where two outgoing contracts share one timelocked transaction, the wallet is never cleared: the
/// second is held to have gone out with the first, so the count of those that went out stays
/// behind.
pub proof fn law_shared_timelocked_transaction_is_never_cleared(
    run: BroadcastView,
    i: int,
    j: int,
)
    requires
        run.well_formed(),
        0 <= i < j < run.outgoings.len(),
        run.outgoings[i].timelocked == run.outgoings[j].timelocked,
    ensures
        !run.closing(),
{
    if run.closing() {
        law_wallet_is_cleared_only_when_all_went_out(run);
        assert(run.timelock_broadcasted.contains(i));
        assert(run.timelock_broadcasted.contains(j));
        let k = run.timelock_broadcasted.index_of(i);
        let l = run.timelock_broadcasted.index_of(j);
        assert(run.timelock_broadcasted[k] == i && run.timelock_broadcasted[l] == j);
    }
}

/// A timelocked transaction goes out only on a report that its contract has more confirmations
/// than its timelock, and only where none equal to it went out before.
pub proof fn law_timelocked_transaction_goes_out_matured_and_once(
    run: BroadcastView,
    report: BroadcastReport,
    index: usize,
)
    requires
        run.well_formed(),
        run.accepts(report),
        run.after(report).stage == (BroadcastStage::SendTimelocked { index }),
    ensures
        run.stage == (BroadcastStage::LookUpContract { index }),
        report matches BroadcastReport::Known { confirmations: Some(confirmations) }
            && confirmations > run.outgoings[index as int].timelock,
        !run.after(report).timelock_sent(index as int),
{
    crate::contract_broadcast::lemma_after(run, report);
}

/// An incoming swapcoin leaves the wallet only when the node knows its contract, or was sent it.
pub proof fn law_incoming_swapcoin_leaves_after_its_contract_went_out(
    run: BroadcastView,
    report: BroadcastReport,
    index: usize,
)
    requires
        run.well_formed(),
        run.accepts(report),
        run.after(report).stage == (BroadcastStage::RemoveIncoming { index }),
    ensures
        (run.stage == (BroadcastStage::LookUpIncoming { index }) && report is Known) || (run.stage
            == (BroadcastStage::SendIncoming { index }) && report is Done),
{
    crate::contract_broadcast::lemma_after(run, report);
}

impl BroadcastView {
    /// How many tasks a look at the chain may still have.
    pub open spec fn scan_tasks_left(self) -> int {
        match self.stage {
            BroadcastStage::LookUpContract { index } => 2 * (self.outgoings.len() - index),
            BroadcastStage::SendTimelocked { index } => 2 * (self.outgoings.len() - index) - 1,
            _ => 0,
        }
    }

    /// The run behind a look at the chain, with one report for each outgoing contract that is
    /// looked up, and every sending done.
    pub open spec fn scanned(self, reports: Seq<BroadcastReport>) -> BroadcastView
        decreases self.scan_tasks_left(),
        when self.outgoings.len() <= usize::MAX
    {
        match self.stage {
            BroadcastStage::LookUpContract { index } => if index < self.outgoings.len() {
                proof {
                    crate::contract_broadcast::lemma_scan_stage(self, (index + 1) as nat);
                }
                self.after(reports[index as int]).scanned(reports)
            } else {
                self
            },
            BroadcastStage::SendTimelocked { index } => if index < self.outgoings.len() {
                proof {
                    crate::contract_broadcast::lemma_scan_stage(
                        self.with_sent(index as int),
                        (index + 1) as nat,
                    );
                }
                self.after(BroadcastReport::Done).scanned(reports)
            } else {
                self
            },
            _ => self,
        }
    }

    /// Whether the reports say that an outgoing contract from `from` on has matured that is spent
    /// by the timelocked transaction of the contract at `index`.
    pub open spec fn matures(
        self,
        reports: Seq<BroadcastReport>,
        from: int,
        index: int,
    ) -> bool {
        exists|j: int|
            from <= j < self.outgoings.len() && self.outgoings[j].timelocked
                == self.outgoings[index].timelocked && #[trigger] self.matured(j, reports[j])
    }
}

/// The scan from `from` on does not rest on the open task.
pub(crate) proof fn lemma_scan_stage_frame(a: BroadcastView, b: BroadcastView, from: nat)
    requires
        a.outgoings == b.outgoings,
        a.timelock_broadcasted == b.timelock_broadcasted,
    ensures
        a.scan_stage(from) == b.scan_stage(from),
    decreases a.outgoings.len() - from,
{
    if from < a.outgoings.len() {
        assert(a.timelock_sent(from as int) == b.timelock_sent(from as int));
        lemma_scan_stage_frame(a, b, from + 1);
    }
}

/// A look at the chain from `from` on sends exactly the timelocked transactions of the contracts
/// that have matured.
#[verifier::rlimit(50)]
proof fn lemma_scanned(run: BroadcastView, reports: Seq<BroadcastReport>, from: nat)
    requires
        run.outgoings.len() <= usize::MAX,
        run.sent_once(),
        from <= run.outgoings.len(),
        run.stage == run.scan_stage(from),
    ensures
        ({
            let end = run.scanned(reports);
            &&& end.outgoings == run.outgoings
            &&& end.sent_once()
            &&& end.stage == end.scanned_stage()
            &&& forall|i: int|
                0 <= i < run.outgoings.len() ==> (#[trigger] end.timelock_sent(i)
                    <==> run.timelock_sent(i) || run.matures(reports, from as int, i))
        }),
    decreases run.outgoings.len() - from,
{
    let end = run.scanned(reports);
    if from == run.outgoings.len() {
        assert(end == run);
    } else if run.timelock_sent(from as int) {
        lemma_scanned(run, reports, from + 1);
        assert forall|i: int| 0 <= i < run.outgoings.len() implies (#[trigger] end.timelock_sent(i)
            <==> run.timelock_sent(i) || run.matures(reports, from as int, i)) by {
            lemma_matures_step(run, reports, from as int, i);
            if run.outgoings[from as int].timelocked == run.outgoings[i].timelocked {
                assert(run.timelock_sent(i));
            }
        }
    } else if run.matured(from as int, reports[from as int]) {
        let sent = run.with_sent(from as int);
        let next = sent.at(sent.scan_stage(from + 1));
        crate::contract_broadcast::lemma_with_sent(run, from as int);
        lemma_scan_stage_frame(sent, next, from + 1);
        let sending = run.at(BroadcastStage::SendTimelocked { index: from as usize });
        assert(run.after(reports[from as int]) == sending);
        assert(sending.with_sent(from as int).at(sent.scan_stage(from + 1)) == next);
        lemma_scan_stage_frame(sending.with_sent(from as int), sent, from + 1);
        assert(sending.after(BroadcastReport::Done) == next);
        reveal_with_fuel(BroadcastView::scanned, 2);
        assert(end == next.scanned(reports));
        assert(next.sent_once());
        lemma_scanned(next, reports, from + 1);
        assert forall|i: int| 0 <= i < run.outgoings.len() implies (#[trigger] end.timelock_sent(i)
            <==> run.timelock_sent(i) || run.matures(reports, from as int, i)) by {
            lemma_matures_step(run, reports, from as int, i);
            lemma_sent_step(run, next, from as int, i);
            lemma_matures_frame(run, next, reports, from as int + 1, i);
        }
    } else {
        let next = run.at(run.scan_stage(from + 1));
        lemma_scan_stage_frame(run, next, from + 1);
        assert(run.after(reports[from as int]) == next);
        assert(end == next.scanned(reports));
        assert(next.sent_once());
        lemma_scanned(next, reports, from + 1);
        assert forall|i: int| 0 <= i < run.outgoings.len() implies (#[trigger] end.timelock_sent(i)
            <==> run.timelock_sent(i) || run.matures(reports, from as int, i)) by {
            lemma_matures_step(run, reports, from as int, i);
            lemma_matures_frame(run, next, reports, from as int + 1, i);
            assert(run.timelock_sent(i) == next.timelock_sent(i));
        }
    }
}

proof fn lemma_matures_step(
    run: BroadcastView,
    reports: Seq<BroadcastReport>,
    from: int,
    index: int,
)
    requires
        from < run.outgoings.len(),
    ensures
        run.matures(reports, from, index) <==> run.matures(reports, from + 1, index) || (
        run.outgoings[from].timelocked == run.outgoings[index].timelocked && run.matured(
            from,
            reports[from],
        )),
{
    if run.matures(reports, from, index) {
        let j = choose|j: int|
            from <= j < run.outgoings.len() && run.outgoings[j].timelocked
                == run.outgoings[index].timelocked && #[trigger] run.matured(j, reports[j]);
        assert(run.matured(j, reports[j]));
    }
    if run.matures(reports, from + 1, index) {
        let j = choose|j: int|
            from + 1 <= j < run.outgoings.len() && run.outgoings[j].timelocked
                == run.outgoings[index].timelocked && #[trigger] run.matured(j, reports[j]);
        assert(run.matured(j, reports[j]));
    }
}

proof fn lemma_matures_frame(
    a: BroadcastView,
    b: BroadcastView,
    reports: Seq<BroadcastReport>,
    from: int,
    index: int,
)
    requires
        a.outgoings == b.outgoings,
    ensures
        a.matures(reports, from, index) == b.matures(reports, from, index),
{
    assert forall|j: int| a.matured(j, reports[j]) == #[trigger] b.matured(j, reports[j]) by {}
    if a.matures(reports, from, index) {
        let j = choose|j: int|
            from <= j < a.outgoings.len() && a.outgoings[j].timelocked
                == a.outgoings[index].timelocked && #[trigger] a.matured(j, reports[j]);
        assert(b.matured(j, reports[j]));
    }
    if b.matures(reports, from, index) {
        let j = choose|j: int|
            from <= j < b.outgoings.len() && b.outgoings[j].timelocked
                == b.outgoings[index].timelocked && #[trigger] b.matured(j, reports[j]);
        assert(a.matured(j, reports[j]));
    }
}

pub(crate) proof fn lemma_sent_step(run: BroadcastView, next: BroadcastView, sent: int, index: int)
    requires
        next.outgoings == run.outgoings,
        next.timelock_broadcasted == run.timelock_broadcasted.push(sent),
    ensures
        next.timelock_sent(index) <==> run.timelock_sent(index) || run.outgoings[sent].timelocked
            == run.outgoings[index].timelocked,
{
    let count = run.timelock_broadcasted.len() as int;
    assert(next.timelock_broadcasted[count] == sent);
    if run.timelock_sent(index) {
        let k = choose|k: int|
            0 <= k < run.timelock_broadcasted.len() && run.outgoings[(
            #[trigger] run.timelock_broadcasted[k])].timelocked == run.outgoings[index].timelocked;
        assert(next.timelock_broadcasted[k] == run.timelock_broadcasted[k]);
    }
    if next.timelock_sent(index) {
        let k = choose|k: int|
            0 <= k < next.timelock_broadcasted.len() && next.outgoings[(
            #[trigger] next.timelock_broadcasted[k])].timelocked
                == next.outgoings[index].timelocked;
        if k < count {
            assert(next.timelock_broadcasted[k] == run.timelock_broadcasted[k]);
        }
    }
}

/// A whole look at the chain sends exactly the timelocked transactions of the contracts that have
/// matured and whose own did not go out; those that went out before stay so.
pub proof fn law_look_at_the_chain_sends_what_matured(
    run: BroadcastView,
    reports: Seq<BroadcastReport>,
)
    requires
        run.well_formed(),
        run.stage == run.scan_stage(0),
    ensures
        run.scanned(reports).outgoings == run.outgoings,
        run.scanned(reports).stage == run.scanned(reports).scanned_stage(),
        forall|i: int|
            0 <= i < run.outgoings.len() ==> (#[trigger] run.scanned(reports).timelock_sent(i)
                <==> run.timelock_sent(i) || run.matures(reports, 0, i)),
{
    lemma_scanned(run, reports, 0);
}

/// Once every outgoing contract has matured, and no two are spent by one and the same timelocked
/// transaction, one look at the chain suffices: the wallet is cleared next.
pub proof fn law_claim_ends_once_all_contracts_matured(
    run: BroadcastView,
    reports: Seq<BroadcastReport>,
)
    requires
        run.well_formed(),
        run.stage == run.scan_stage(0),
        forall|i: int, j: int|
            0 <= i < j < run.outgoings.len() ==> (#[trigger] run.outgoings[i]).timelocked != (
            #[trigger] run.outgoings[j]).timelocked,
        forall|i: int|
            0 <= i < run.outgoings.len() ==> run.timelock_sent(i) || #[trigger] run.matured(
                i,
                reports[i],
            ),
    ensures
        run.scanned(reports).closing(),
{
    let end = run.scanned(reports);
    lemma_scanned(run, reports, 0);
    let sent = end.timelock_broadcasted;
    assert(sent.no_duplicates()) by {
        assert forall|k: int, l: int|
            0 <= k < sent.len() && 0 <= l < sent.len() && k != l implies sent[k] != sent[l] by {
            if k < l {
                assert(end.outgoings[sent[k]].timelocked != end.outgoings[sent[l]].timelocked);
            } else {
                assert(end.outgoings[sent[l]].timelocked != end.outgoings[sent[k]].timelocked);
            }
        }
    }
    assert forall|i: int| 0 <= i < end.outgoings.len() implies #[trigger] sent.contains(i) by {
        assert(run.timelock_sent(i) || run.matured(i, reports[i]));
        assert(end.timelock_sent(i));
        let k = choose|k: int|
            0 <= k < end.timelock_broadcasted.len() && end.outgoings[(
            #[trigger] end.timelock_broadcasted[k])].timelocked == end.outgoings[i].timelocked;
        assert(sent[k] == i) by {
            let other = sent[k];
            assert(run.outgoings[other].timelocked == run.outgoings[i].timelocked);
        }
    }
    lemma_covering(sent, end.outgoings.len());
}

/// Whether every report can come of a look-up: the transaction is known, with whatever
/// confirmations, or it is not.
pub open spec fn of_look_ups(reports: Seq<BroadcastReport>) -> bool {
    forall|i: int| 0 <= i < reports.len() ==> !((#[trigger] reports[i]) is Done)
}

/// The tasks on the incoming contracts from `index` on: each is looked up, sent where the node does
/// not know it, and its swapcoin removed.
pub open spec fn incoming_tasks(looks: Seq<BroadcastReport>, index: nat) -> Seq<BroadcastStage>
    decreases looks.len() - index,
{
    if index >= looks.len() {
        Seq::empty()
    } else {
        seq![BroadcastStage::LookUpIncoming { index: index as usize }] + (if looks[index as int] is Known {
            Seq::empty()
        } else {
            seq![BroadcastStage::SendIncoming { index: index as usize }]
        }) + seq![BroadcastStage::RemoveIncoming { index: index as usize }] + incoming_tasks(
            looks,
            index + 1,
        )
    }
}

/// The tasks on the outgoing contracts from `index` on: each is looked up, and sent where the node
/// does not know it.
pub open spec fn outgoing_tasks(looks: Seq<BroadcastReport>, index: nat) -> Seq<BroadcastStage>
    decreases looks.len() - index,
{
    if index >= looks.len() {
        Seq::empty()
    } else {
        seq![BroadcastStage::LookUpOutgoing { index: index as usize }] + (if looks[index as int] is Known {
            Seq::empty()
        } else {
            seq![BroadcastStage::SendOutgoing { index: index as usize }]
        }) + outgoing_tasks(looks, index + 1)
    }
}

/// The tasks of clearing the wallet from the outgoing contract at `index` on.
pub open spec fn removal_tasks(count: nat, index: nat) -> Seq<BroadcastStage>
    decreases count - index,
{
    if index >= count {
        Seq::empty()
    } else {
        seq![BroadcastStage::RemoveOutgoing { index: index as usize }] + removal_tasks(
            count,
            index + 1,
        )
    }
}

impl BroadcastView {
    /// The phase of a run that sends the contracts out, counted down.
    pub open spec fn phases_left(self) -> nat {
        match self.stage {
            BroadcastStage::LookUpIncoming { .. } => 3,
            BroadcastStage::SendIncoming { .. } => 3,
            BroadcastStage::RemoveIncoming { .. } => 3,
            BroadcastStage::SaveIncoming => 2,
            BroadcastStage::LookUpOutgoing { .. } => 1,
            BroadcastStage::SendOutgoing { .. } => 1,
            _ => 0,
        }
    }

    /// How many tasks such a phase may still have.
    pub open spec fn phase_tasks_left(self) -> int {
        match self.stage {
            BroadcastStage::LookUpIncoming { index } => 3 * (self.incomings.len() - index),
            BroadcastStage::SendIncoming { index } => 3 * (self.incomings.len() - index) - 1,
            BroadcastStage::RemoveIncoming { index } => 3 * (self.incomings.len() - index) - 2,
            BroadcastStage::LookUpOutgoing { index } => 3 * (self.outgoings.len() - index),
            BroadcastStage::SendOutgoing { index } => 3 * (self.outgoings.len() - index) - 1,
            _ => 0,
        }
    }

    /// The report on an opening task, with one report for the look-up of each incoming and of each
    /// outgoing contract.
    pub open spec fn opening_report(
        self,
        looks_incoming: Seq<BroadcastReport>,
        looks_outgoing: Seq<BroadcastReport>,
    ) -> BroadcastReport {
        match self.stage {
            BroadcastStage::LookUpIncoming { index } => looks_incoming[index as int],
            BroadcastStage::LookUpOutgoing { index } => looks_outgoing[index as int],
            _ => BroadcastReport::Done,
        }
    }

    /// The tasks of a run until every contract went out.
    pub open spec fn opening_tasks(
        self,
        looks_incoming: Seq<BroadcastReport>,
        looks_outgoing: Seq<BroadcastReport>,
    ) -> Seq<BroadcastStage>
        decreases self.phases_left(), self.phase_tasks_left(),
        when self.well_formed()
    {
        if self.opening() {
            proof {
                crate::contract_broadcast::lemma_scan_stage(self, 0);
            }
            seq![self.stage] + self.after(
                self.opening_report(looks_incoming, looks_outgoing),
            ).opening_tasks(looks_incoming, looks_outgoing)
        } else {
            Seq::empty()
        }
    }

    /// How many tasks are left in clearing the wallet.
    pub open spec fn closing_tasks_left(self) -> int {
        match self.stage {
            BroadcastStage::RemoveOutgoing { index } => self.outgoings.len() - index + 3,
            BroadcastStage::Sync => 3,
            BroadcastStage::SaveOutgoing => 2,
            BroadcastStage::Shutdown => 1,
            _ => 0,
        }
    }

    /// The tasks of clearing the wallet.
    pub open spec fn closing_tasks(self) -> Seq<BroadcastStage>
        decreases self.closing_tasks_left(),
        when self.well_formed()
    {
        if self.closing() && !(self.stage is Finished) {
            seq![self.stage] + self.after(BroadcastReport::Done).closing_tasks()
        } else {
            Seq::empty()
        }
    }
}

/// One opening task, and those behind it.
proof fn lemma_opening_step(
    run: BroadcastView,
    looks_incoming: Seq<BroadcastReport>,
    looks_outgoing: Seq<BroadcastReport>,
) -> (next: BroadcastView)
    requires
        run.well_formed(),
        run.opening(),
        run.accepts(run.opening_report(looks_incoming, looks_outgoing)),
    ensures
        next == run.after(run.opening_report(looks_incoming, looks_outgoing)),
        next.well_formed(),
        run.opening_tasks(looks_incoming, looks_outgoing) == seq![run.stage] + next.opening_tasks(
            looks_incoming,
            looks_outgoing,
        ),
{
    let report = run.opening_report(looks_incoming, looks_outgoing);
    crate::contract_broadcast::lemma_after(run, report);
    run.after(report)
}

/// One task of clearing the wallet, and those behind it.
proof fn lemma_closing_step(run: BroadcastView) -> (next: BroadcastView)
    requires
        run.well_formed(),
        run.closing(),
        !(run.stage is Finished),
    ensures
        next == run.after(BroadcastReport::Done),
        next.well_formed(),
        run.closing_tasks() == seq![run.stage] + next.closing_tasks(),
{
    crate::contract_broadcast::lemma_after(run, BroadcastReport::Done);
    run.after(BroadcastReport::Done)
}

proof fn lemma_incoming_tasks(
    run: BroadcastView,
    looks_incoming: Seq<BroadcastReport>,
    looks_outgoing: Seq<BroadcastReport>,
    index: nat,
)
    requires
        run.well_formed(),
        looks_incoming.len() == run.incomings.len(),
        of_look_ups(looks_incoming),
        index <= run.incomings.len(),
        run.stage == run.incoming_stage(index),
    ensures
        run.opening_tasks(looks_incoming, looks_outgoing) == incoming_tasks(looks_incoming, index)
            + run.at(BroadcastStage::SaveIncoming).opening_tasks(looks_incoming, looks_outgoing),
    decreases run.incomings.len() - index,
{
    let save = run.at(BroadcastStage::SaveIncoming);
    if index == run.incomings.len() {
        assert(run == save);
        assert(incoming_tasks(looks_incoming, index) =~= Seq::empty());
        assert(run.opening_tasks(looks_incoming, looks_outgoing) =~= incoming_tasks(
            looks_incoming,
            index,
        ) + save.opening_tasks(looks_incoming, looks_outgoing));
    } else {
        let looked = lemma_opening_step(run, looks_incoming, looks_outgoing);
        let removing = if looks_incoming[index as int] is Known {
            looked
        } else {
            lemma_opening_step(looked, looks_incoming, looks_outgoing)
        };
        let next = lemma_opening_step(removing, looks_incoming, looks_outgoing);
        assert(next == run.at(run.incoming_stage(index + 1)));
        lemma_incoming_tasks(next, looks_incoming, looks_outgoing, index + 1);
        assert(next.at(BroadcastStage::SaveIncoming) == save);
        assert(run.opening_tasks(looks_incoming, looks_outgoing) =~= incoming_tasks(
            looks_incoming,
            index,
        ) + save.opening_tasks(looks_incoming, looks_outgoing));
    }
}

proof fn lemma_outgoing_tasks(
    run: BroadcastView,
    looks_incoming: Seq<BroadcastReport>,
    looks_outgoing: Seq<BroadcastReport>,
    index: nat,
)
    requires
        run.well_formed(),
        looks_outgoing.len() == run.outgoings.len(),
        of_look_ups(looks_outgoing),
        index <= run.outgoings.len(),
        run.stage == run.outgoing_stage(index),
    ensures
        run.opening_tasks(looks_incoming, looks_outgoing) == outgoing_tasks(looks_outgoing, index),
    decreases run.outgoings.len() - index,
{
    if index == run.outgoings.len() {
        crate::contract_broadcast::lemma_scan_stage(run, 0);
        assert(run.opening_tasks(looks_incoming, looks_outgoing) =~= outgoing_tasks(
            looks_outgoing,
            index,
        ));
    } else {
        let looked = lemma_opening_step(run, looks_incoming, looks_outgoing);
        let next = if looks_outgoing[index as int] is Known {
            looked
        } else {
            lemma_scan_stage_frame(run, looked, 0);
            lemma_opening_step(looked, looks_incoming, looks_outgoing)
        };
        lemma_scan_stage_frame(run, next, 0);
        assert(next == run.at(run.outgoing_stage(index + 1)));
        lemma_outgoing_tasks(next, looks_incoming, looks_outgoing, index + 1);
        assert(run.opening_tasks(looks_incoming, looks_outgoing) =~= outgoing_tasks(
            looks_outgoing,
            index,
        ));
    }
}

/// A run first sends out, in order, every incoming contract that the node does not know and none
/// that it knows, and removes each incoming swapcoin behind it; then it saves the wallet; then it
/// sends out, in order, every outgoing contract that the node does not know and none that it knows.
/// A contract is known when its look-up reports so, with or without confirmations.
pub proof fn law_contracts_go_out_once_and_in_order(
    outgoings: Seq<OutgoingView>,
    incomings: Seq<TransactionView>,
    integration_test: bool,
    looks_incoming: Seq<BroadcastReport>,
    looks_outgoing: Seq<BroadcastReport>,
)
    requires
        outgoings.len() <= usize::MAX,
        incomings.len() <= usize::MAX,
        looks_incoming.len() == incomings.len(),
        looks_outgoing.len() == outgoings.len(),
        of_look_ups(looks_incoming),
        of_look_ups(looks_outgoing),
    ensures
        BroadcastView::start(outgoings, incomings, integration_test).opening_tasks(
            looks_incoming,
            looks_outgoing,
        ) == incoming_tasks(looks_incoming, 0) + seq![BroadcastStage::SaveIncoming]
            + outgoing_tasks(looks_outgoing, 0),
{
    let run = BroadcastView::start(outgoings, incomings, integration_test);
    lemma_incoming_tasks(run, looks_incoming, looks_outgoing, 0);
    let save = run.at(BroadcastStage::SaveIncoming);
    let saved = lemma_opening_step(save, looks_incoming, looks_outgoing);
    lemma_scan_stage_frame(save, saved, 0);
    lemma_outgoing_tasks(saved, looks_incoming, looks_outgoing, 0);
    assert(run.opening_tasks(looks_incoming, looks_outgoing) =~= incoming_tasks(looks_incoming, 0)
        + seq![BroadcastStage::SaveIncoming] + outgoing_tasks(looks_outgoing, 0));
}

proof fn lemma_removal_tasks(run: BroadcastView, index: nat)
    requires
        run.well_formed(),
        index <= run.outgoings.len(),
        run.closing(),
        run.stage == run.removal_stage(index),
    ensures
        run.closing_tasks() == removal_tasks(run.outgoings.len(), index) + run.at(
            BroadcastStage::Sync,
        ).closing_tasks(),
    decreases run.outgoings.len() - index,
{
    let sync = run.at(BroadcastStage::Sync);
    if index == run.outgoings.len() {
        assert(run == sync);
        assert(run.closing_tasks() =~= removal_tasks(run.outgoings.len(), index)
            + sync.closing_tasks());
    } else {
        let next = lemma_closing_step(run);
        lemma_removal_tasks(next, index + 1);
        assert(next.at(BroadcastStage::Sync) == sync);
        assert(run.closing_tasks() =~= removal_tasks(run.outgoings.len(), index)
            + sync.closing_tasks());
    }
}

/// Clearing the wallet removes every outgoing swapcoin in order, brings the wallet up to date,
/// saves it, and in an integration test shuts the maker down; then the run is finished.
pub proof fn law_wallet_is_cleared_in_order(run: BroadcastView)
    requires
        run.well_formed(),
        run.closing(),
        run.stage == run.removal_stage(0),
    ensures
        run.closing_tasks() == removal_tasks(run.outgoings.len(), 0) + seq![
            BroadcastStage::Sync,
            BroadcastStage::SaveOutgoing,
        ] + (if run.integration_test {
            seq![BroadcastStage::Shutdown]
        } else {
            Seq::empty()
        }),
{
    lemma_removal_tasks(run, 0);
    let sync = run.at(BroadcastStage::Sync);
    let save = lemma_closing_step(sync);
    let last = lemma_closing_step(save);
    if run.integration_test {
        lemma_closing_step(last);
    }
    assert(run.closing_tasks() =~= removal_tasks(run.outgoings.len(), 0) + seq![
        BroadcastStage::Sync,
        BroadcastStage::SaveOutgoing,
    ] + (if run.integration_test {
        seq![BroadcastStage::Shutdown]
    } else {
        Seq::empty()
    }));
}

} // verus!
