//! The course of a claim, from its first task to any moment of it.

use vstd::prelude::*;

use crate::contract_broadcast::{BroadcastReport, BroadcastStage, BroadcastView, OutgoingView};
use crate::transaction::TransactionView;

verus! {

impl BroadcastView {
    /// The run once a task after the other is reported on.
    pub open spec fn after_all(self, reports: Seq<BroadcastReport>) -> BroadcastView
        decreases reports.len(),
    {
        if reports.len() == 0 {
            self
        } else {
            self.after_all(reports.drop_last()).after(reports.last())
        }
    }

    /// Whether every report reports on the task that is then open.
    pub open spec fn accepts_all(self, reports: Seq<BroadcastReport>) -> bool
        decreases reports.len(),
    {
        reports.len() == 0 || (self.accepts_all(reports.drop_last()) && self.after_all(
            reports.drop_last(),
        ).accepts(reports.last()))
    }

    /// The run at a moment of its course: once the first `moment` reports are in.
    pub open spec fn moment(self, reports: Seq<BroadcastReport>, moment: int) -> BroadcastView {
        self.after_all(reports.take(moment))
    }

    /// The transaction that the open task sends to the node.
    pub open spec fn sending(self) -> Option<TransactionView> {
        match self.stage {
            BroadcastStage::SendIncoming { index } => Some(self.incomings[index as int]),
            BroadcastStage::SendOutgoing { index } => Some(self.outgoings[index as int].contract),
            BroadcastStage::SendTimelocked { index } => Some(
                self.outgoings[index as int].timelocked,
            ),
            _ => None,
        }
    }
}

/// One report on, at a moment of the course.
proof fn lemma_next_moment(run: BroadcastView, reports: Seq<BroadcastReport>, moment: int)
    requires
        run.well_formed(),
        run.accepts_all(reports),
        0 <= moment < reports.len(),
    ensures
        run.moment(reports, moment).accepts(reports[moment]),
        run.moment(reports, moment + 1) == run.moment(reports, moment).after(reports[moment]),
    decreases reports.len(),
{
    let before = reports.take(moment + 1);
    assert(before.drop_last() =~= reports.take(moment));
    assert(before.last() == reports[moment]);
    if moment + 1 == reports.len() {
        assert(before =~= reports);
    } else {
        lemma_next_moment(run, reports.drop_last(), moment);
        assert(reports.drop_last().take(moment) =~= reports.take(moment));
        assert(reports.drop_last()[moment] == reports[moment]);
    }
}

/// What holds of a run at every moment of its course.
proof fn lemma_moment(run: BroadcastView, reports: Seq<BroadcastReport>, moment: int)
    requires
        run.well_formed(),
        run.accepts_all(reports),
        0 <= moment <= reports.len(),
    ensures
        run.moment(reports, moment).well_formed(),
        run.moment(reports, moment).outgoings == run.outgoings,
        run.moment(reports, moment).incomings == run.incomings,
    decreases moment,
{
    if moment == 0 {
        assert(reports.take(0) =~= Seq::empty());
    } else {
        lemma_moment(run, reports, moment - 1);
        lemma_next_moment(run, reports, moment - 1);
        crate::contract_broadcast::lemma_after(
            run.moment(reports, moment - 1),
            reports[moment - 1],
        );
    }
}

/// What went out stays so: a timelocked transaction sent at one moment is known as gone out at
/// every later one.
proof fn lemma_stays_sent(
    run: BroadcastView,
    reports: Seq<BroadcastReport>,
    sent: int,
    index: usize,
    moment: int,
)
    requires
        run.well_formed(),
        run.accepts_all(reports),
        0 <= sent < moment <= reports.len(),
        run.moment(reports, sent).stage == (BroadcastStage::SendTimelocked { index }),
    ensures
        run.moment(reports, moment).timelock_broadcasted.contains(index as int),
    decreases moment,
{
    let before = run.moment(reports, moment - 1);
    let now = run.moment(reports, moment);
    lemma_next_moment(run, reports, moment - 1);
    if sent == moment - 1 {
        assert(now.timelock_broadcasted.last() == index as int);
    } else {
        lemma_stays_sent(run, reports, sent, index, moment - 1);
        let k = before.timelock_broadcasted.index_of(index as int);
        assert(now.timelock_broadcasted[k] == index as int);
    }
}

/// What counts as gone out was sent: behind every contract whose timelocked transaction is known
/// as gone out there is a moment at which it was sent.
proof fn lemma_was_sent(
    run: BroadcastView,
    reports: Seq<BroadcastReport>,
    moment: int,
    index: int,
) -> (sent: int)
    requires
        run.well_formed(),
        run.timelock_broadcasted.len() == 0,
        run.accepts_all(reports),
        0 <= moment <= reports.len(),
        run.moment(reports, moment).timelock_broadcasted.contains(index),
    ensures
        0 <= sent < moment,
        run.moment(reports, sent).stage == (BroadcastStage::SendTimelocked {
            index: index as usize,
        }),
    decreases moment,
{
    if moment == 0 {
        assert(reports.take(0) =~= Seq::empty());
        0
    } else {
        let before = run.moment(reports, moment - 1);
        lemma_next_moment(run, reports, moment - 1);
        if before.timelock_broadcasted.contains(index) {
            lemma_was_sent(run, reports, moment - 1, index)
        } else {
            let now = run.moment(reports, moment);
            let k = now.timelock_broadcasted.index_of(index);
            if k < before.timelock_broadcasted.len() {
                assert(before.timelock_broadcasted[k] == index);
            }
            moment - 1
        }
    }
}

/// Over the whole course of a claim, no two timelocked transactions that are equal are sent.
pub proof fn law_no_timelocked_transaction_is_sent_twice(
    run: BroadcastView,
    reports: Seq<BroadcastReport>,
    earlier: int,
    i: usize,
    later: int,
    j: usize,
)
    requires
        run.well_formed(),
        run.accepts_all(reports),
        0 <= earlier < later <= reports.len(),
        run.moment(reports, earlier).stage == (BroadcastStage::SendTimelocked { index: i }),
        run.moment(reports, later).stage == (BroadcastStage::SendTimelocked { index: j }),
    ensures
        run.outgoings[i as int].timelocked != run.outgoings[j as int].timelocked,
{
    lemma_moment(run, reports, later);
    lemma_stays_sent(run, reports, earlier, i, later);
    let now = run.moment(reports, later);
    let k = now.timelock_broadcasted.index_of(i as int);
    assert(now.timelock_broadcasted[k] == i as int);
    assert(!now.timelock_sent(j as int));
}

/// Over the whole course of a claim, the timelocked transaction of a contract is sent at most once,
/// and only right after a look-up of that contract which found more confirmations than its
/// timelock; where it equals no other timelocked transaction and no contract of the claim, so that
/// no other task sends it.
pub proof fn law_timelocked_transaction_is_sent_once_and_matured(
    outgoings: Seq<OutgoingView>,
    incomings: Seq<TransactionView>,
    integration_test: bool,
    reports: Seq<BroadcastReport>,
    i: int,
    moment: int,
)
    requires
        outgoings.len() <= usize::MAX,
        incomings.len() <= usize::MAX,
        BroadcastView::start(outgoings, incomings, integration_test).accepts_all(reports),
        0 <= i < outgoings.len(),
        forall|j: int|
            0 <= j < outgoings.len() ==> (#[trigger] outgoings[j]).contract
                != outgoings[i].timelocked && (j != i ==> outgoings[j].timelocked
                != outgoings[i].timelocked),
        forall|j: int|
            0 <= j < incomings.len() ==> #[trigger] incomings[j] != outgoings[i].timelocked,
        0 <= moment <= reports.len(),
        BroadcastView::start(outgoings, incomings, integration_test).moment(
            reports,
            moment,
        ).sending() == Some(outgoings[i].timelocked),
    ensures
        ({
            let run = BroadcastView::start(outgoings, incomings, integration_test);
            &&& moment > 0
            &&& run.moment(reports, moment).stage == (BroadcastStage::SendTimelocked {
                index: i as usize,
            })
            &&& run.moment(reports, moment - 1).stage == (BroadcastStage::LookUpContract {
                index: i as usize,
            })
            &&& reports[moment - 1] matches BroadcastReport::Known {
                confirmations: Some(confirmations),
            } && confirmations > outgoings[i].timelock
            &&& forall|other: int|
                0 <= other <= reports.len() && (#[trigger] run.moment(reports, other)).sending()
                    == Some(outgoings[i].timelocked) ==> other == moment
        }),
{
    let run = BroadcastView::start(outgoings, incomings, integration_test);
    lemma_sends(run, reports, i, moment);
    if moment == 0 {
        assert(reports.take(0) =~= Seq::empty());
    } else {
        lemma_moment(run, reports, moment - 1);
        lemma_next_moment(run, reports, moment - 1);
        crate::contract_broadcast_laws::law_timelocked_transaction_goes_out_matured_and_once(
            run.moment(reports, moment - 1),
            reports[moment - 1],
            i as usize,
        );
    }
    assert forall|other: int|
        0 <= other <= reports.len() && (#[trigger] run.moment(reports, other)).sending() == Some(
            outgoings[i].timelocked,
        ) implies other == moment by {
        lemma_sends(run, reports, i, other);
        if other < moment {
            law_no_timelocked_transaction_is_sent_twice(
                run,
                reports,
                other,
                i as usize,
                moment,
                i as usize,
            );
        } else if moment < other {
            law_no_timelocked_transaction_is_sent_twice(
                run,
                reports,
                moment,
                i as usize,
                other,
                i as usize,
            );
        }
    }
}

/// A transaction that is no contract of the claim goes out only as the timelocked one.
proof fn lemma_sends(run: BroadcastView, reports: Seq<BroadcastReport>, i: int, moment: int)
    requires
        run.well_formed(),
        run.accepts_all(reports),
        0 <= i < run.outgoings.len(),
        forall|j: int|
            0 <= j < run.outgoings.len() ==> (#[trigger] run.outgoings[j]).contract
                != run.outgoings[i].timelocked && (j != i ==> run.outgoings[j].timelocked
                != run.outgoings[i].timelocked),
        forall|j: int|
            0 <= j < run.incomings.len() ==> #[trigger] run.incomings[j]
                != run.outgoings[i].timelocked,
        0 <= moment <= reports.len(),
        run.moment(reports, moment).sending() == Some(run.outgoings[i].timelocked),
    ensures
        run.moment(reports, moment).stage == (BroadcastStage::SendTimelocked { index: i as usize }),
{
    lemma_moment(run, reports, moment);
}

/// Over the whole course of a claim, no outgoing swapcoin is removed before the timelocked
/// transaction of every outgoing contract was sent: each removal has, for every contract, an
/// earlier moment at which its timelocked transaction was sent.
pub proof fn law_swapcoins_stay_until_every_timelocked_transaction_is_sent(
    outgoings: Seq<OutgoingView>,
    incomings: Seq<TransactionView>,
    integration_test: bool,
    reports: Seq<BroadcastReport>,
    moment: int,
    i: int,
)
    requires
        outgoings.len() <= usize::MAX,
        incomings.len() <= usize::MAX,
        BroadcastView::start(outgoings, incomings, integration_test).accepts_all(reports),
        0 <= moment <= reports.len(),
        BroadcastView::start(outgoings, incomings, integration_test).moment(
            reports,
            moment,
        ).stage is RemoveOutgoing,
        0 <= i < outgoings.len(),
    ensures
        exists|sent: int|
            0 <= sent < moment && (#[trigger] BroadcastView::start(
                outgoings,
                incomings,
                integration_test,
            ).moment(reports, sent)).stage == (BroadcastStage::SendTimelocked {
                index: i as usize,
            }),
{
    let run = BroadcastView::start(outgoings, incomings, integration_test);
    lemma_moment(run, reports, moment);
    let now = run.moment(reports, moment);
    crate::contract_broadcast_laws::law_wallet_is_cleared_only_when_all_went_out(now);
    assert(now.timelock_broadcasted.contains(i));
    let sent = lemma_was_sent(run, reports, moment, i);
    assert(run.moment(reports, sent).stage == (BroadcastStage::SendTimelocked {
        index: i as usize,
    }));
}

} // verus!
