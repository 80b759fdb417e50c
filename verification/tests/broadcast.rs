use coinswap_maker::contract_broadcast::{
    broadcast_contracts_and_timelocks, BroadcastReport, BroadcastRun, BroadcastStage,
    BroadcastTask, IncomingContract, OutgoingContract,
};
use coinswap_maker::transaction::Transaction;

fn tx(tag: u32) -> Transaction {
    Transaction { version: 2, lock_time: tag, input: vec![], output: vec![] }
}

fn outgoing(tag: u8, timelock: u16, timelocked: u32) -> OutgoingContract {
    ((vec![tag, 1], tx(tag as u32)), (timelock, tx(timelocked)))
}

fn incoming(tag: u8) -> IncomingContract {
    (vec![tag, 2], tx(100 + tag as u32))
}

/// The task in words, with the transactions by their lock times.
fn words(run: &BroadcastRun) -> String {
    match run.task() {
        None => String::from("finished"),
        Some(BroadcastTask::GetRawTransactionInfo { txid }) => {
            let mut tag = 0;
            while tx(tag).txid() != txid {
                tag += 1;
            }
            format!("look up {}", tag)
        }
        Some(BroadcastTask::SendRawTransaction(sent)) => format!("send {}", sent.lock_time),
        Some(BroadcastTask::RemoveIncomingSwapcoin(script)) => format!("forget in {}", script[0]),
        Some(BroadcastTask::RemoveOutgoingSwapcoin(script)) => format!("forget out {}", script[0]),
        Some(BroadcastTask::SaveToDisk) => String::from("save"),
        Some(BroadcastTask::Sync) => String::from("sync"),
        Some(BroadcastTask::Shutdown) => String::from("shutdown"),
        Some(BroadcastTask::Sleep { secs }) => format!("sleep {}", secs),
    }
}

fn known(confirmations: Option<u32>) -> BroadcastReport {
    BroadcastReport::Known { confirmations }
}

/// Does the open task, which must be `expected`.
fn done(run: &mut BroadcastRun, expected: &str, report: BroadcastReport) {
    assert_eq!(words(run), expected);
    run.resume(report);
}

#[test]
fn nothing_to_broadcast_still_saves_and_syncs() {
    let mut run = broadcast_contracts_and_timelocks(vec![], vec![], false);
    done(&mut run, "save", BroadcastReport::Done);
    done(&mut run, "sync", BroadcastReport::Done);
    done(&mut run, "save", BroadcastReport::Done);
    assert_eq!(words(&run), "finished");
}

#[test]
fn contracts_go_out_and_are_claimed_after_maturity() {
    let mut run = broadcast_contracts_and_timelocks(
        vec![outgoing(1, 10, 11), outgoing(2, 20, 12)],
        vec![incoming(1), incoming(2)],
        false,
    );
    done(&mut run, "look up 101", BroadcastReport::Unknown);
    done(&mut run, "send 101", BroadcastReport::Done);
    done(&mut run, "forget in 1", BroadcastReport::Done);
    done(&mut run, "look up 102", known(None));
    done(&mut run, "forget in 2", BroadcastReport::Done);
    done(&mut run, "save", BroadcastReport::Done);
    done(&mut run, "look up 1", known(Some(3)));
    done(&mut run, "look up 2", BroadcastReport::Unknown);
    done(&mut run, "send 2", BroadcastReport::Done);
    done(&mut run, "look up 1", known(Some(10)));
    done(&mut run, "look up 2", known(None));
    done(&mut run, "sleep 600", BroadcastReport::Done);
    done(&mut run, "look up 1", known(Some(11)));
    done(&mut run, "send 11", BroadcastReport::Done);
    done(&mut run, "look up 2", BroadcastReport::Unknown);
    done(&mut run, "sleep 600", BroadcastReport::Done);
    done(&mut run, "look up 2", known(Some(21)));
    done(&mut run, "send 12", BroadcastReport::Done);
    done(&mut run, "forget out 1", BroadcastReport::Done);
    done(&mut run, "forget out 2", BroadcastReport::Done);
    done(&mut run, "sync", BroadcastReport::Done);
    done(&mut run, "save", BroadcastReport::Done);
    assert_eq!(words(&run), "finished");
}

#[test]
fn integration_test_sleeps_less_and_shuts_down() {
    let mut run = broadcast_contracts_and_timelocks(vec![outgoing(1, 0, 11)], vec![], true);
    done(&mut run, "save", BroadcastReport::Done);
    done(&mut run, "look up 1", known(Some(0)));
    done(&mut run, "look up 1", known(Some(0)));
    done(&mut run, "sleep 10", BroadcastReport::Done);
    done(&mut run, "look up 1", known(Some(1)));
    done(&mut run, "send 11", BroadcastReport::Done);
    done(&mut run, "forget out 1", BroadcastReport::Done);
    done(&mut run, "sync", BroadcastReport::Done);
    done(&mut run, "save", BroadcastReport::Done);
    done(&mut run, "shutdown", BroadcastReport::Done);
    assert_eq!(words(&run), "finished");
}

#[test]
fn shared_timelocked_transaction_goes_out_once_and_never_ends() {
    let mut run = broadcast_contracts_and_timelocks(
        vec![outgoing(1, 5, 11), outgoing(2, 5, 11)],
        vec![],
        false,
    );
    done(&mut run, "save", BroadcastReport::Done);
    done(&mut run, "look up 1", known(None));
    done(&mut run, "look up 2", known(None));
    done(&mut run, "look up 1", known(Some(6)));
    done(&mut run, "send 11", BroadcastReport::Done);
    for _ in 0..3 {
        done(&mut run, "sleep 600", BroadcastReport::Done);
    }
    assert_eq!(run.stage, BroadcastStage::Sleep);
}

#[test]
fn one_look_suffices_once_all_have_matured() {
    let mut run = broadcast_contracts_and_timelocks(
        vec![outgoing(1, u16::MAX, 11), outgoing(2, 5, 12)],
        vec![],
        false,
    );
    done(&mut run, "save", BroadcastReport::Done);
    done(&mut run, "look up 1", known(None));
    done(&mut run, "look up 2", known(None));
    done(&mut run, "look up 1", known(Some(65536)));
    done(&mut run, "send 11", BroadcastReport::Done);
    done(&mut run, "look up 2", known(Some(6)));
    done(&mut run, "send 12", BroadcastReport::Done);
    assert_eq!(run.stage, BroadcastStage::RemoveOutgoing { index: 0 });
}

#[test]
fn course_sends_each_spend_once_and_before_any_removal() {
    let mut run = broadcast_contracts_and_timelocks(
        vec![outgoing(1, 2, 11), outgoing(2, 4, 12), outgoing(3, 1, 13)],
        vec![incoming(1)],
        false,
    );
    let mut depth = 0;
    let mut sent = Vec::new();
    let mut last_look = String::new();
    loop {
        let task = words(&run);
        let report = if task.starts_with("look up") {
            last_look = task.clone();
            known(Some(depth))
        } else {
            if task.starts_with("sleep") {
                depth += 1;
            }
            if task.starts_with("send 1") {
                assert_eq!(last_look, format!("look up {}", &task[6..]));
                sent.push(task.clone());
            }
            if task.starts_with("forget out") {
                assert_eq!(sent.len(), 3);
            }
            BroadcastReport::Done
        };
        if task == "finished" {
            break;
        }
        run.resume(report);
    }
    assert_eq!(sent, vec!["send 13", "send 11", "send 12"]);
    assert_eq!(depth, 5);
}

#[test]
fn confirmed_contracts_are_not_sent_again() {
    let mut run = broadcast_contracts_and_timelocks(
        vec![outgoing(1, 9, 11), outgoing(2, 9, 12)],
        vec![incoming(1), incoming(2)],
        false,
    );
    done(&mut run, "look up 101", known(Some(7)));
    done(&mut run, "forget in 1", BroadcastReport::Done);
    done(&mut run, "look up 102", BroadcastReport::Unknown);
    done(&mut run, "send 102", BroadcastReport::Done);
    done(&mut run, "forget in 2", BroadcastReport::Done);
    done(&mut run, "save", BroadcastReport::Done);
    done(&mut run, "look up 1", known(Some(1)));
    done(&mut run, "look up 2", known(Some(100)));
    assert_eq!(run.stage, BroadcastStage::LookUpContract { index: 0 });
}
