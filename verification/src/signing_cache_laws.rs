//! Requests for signatures against the contracts that the wallet remembers.
//!
//! The wallet keeps, by spent output, the script of the contract that it was last told to remember
//! for it. Asked whether an output matches, it says no exactly where it keeps another script.

use vstd::prelude::*;

use crate::error::MakerError;
use crate::messages::{ContractTxInfoForSender, ReqContractSigsForSender};
use crate::signing::{Signature, SigningAnswer, SigningStageView, SigningView};
use crate::signing_laws::SigningFacts;
use crate::transaction::OutPoint;

verus! {

/// The output that a contract transaction with one input spends.
pub open spec fn spent_output(info: ContractTxInfoForSender) -> OutPoint {
    info.senders_contract_tx.input@[0].previous_output
}

/// The script of the output of a contract transaction with one output.
pub open spec fn contract_script(info: ContractTxInfoForSender) -> Seq<u8> {
    info.senders_contract_tx.output@[0].script_pubkey@
}

/// What requests leave behind.
#[verifier::ext_equal]
pub struct SigningHistory {
    /// The contract scripts that the wallet remembers, by spent output.
    pub cache: Map<OutPoint, Seq<u8>>,
    /// The contracts that were signed, each as the output it spends and its script, in order.
    pub signed: Seq<(OutPoint, Seq<u8>)>,
}

impl SigningHistory {
    /// Whether the wallet keeps no other script for the output that a contract spends.
    pub open spec fn no_other_contract(self, info: ContractTxInfoForSender) -> bool {
        self.cache.contains_key(spent_output(info)) ==> self.cache[spent_output(info)]
            == contract_script(info)
    }

    /// The wallet told to remember a contract.
    pub open spec fn remembering(self, info: ContractTxInfoForSender) -> SigningHistory {
        SigningHistory {
            cache: self.cache.insert(spent_output(info), contract_script(info)),
            ..self
        }
    }

    /// One contract more signed.
    pub open spec fn signing(self, info: ContractTxInfoForSender) -> SigningHistory {
        SigningHistory {
            signed: self.signed.push((spent_output(info), contract_script(info))),
            ..self
        }
    }

    /// What is left behind once the open question of `work` is answered: a caching that passed is
    /// remembered, and a signature that was given is a contract signed.
    pub open spec fn after(self, work: SigningView<'_>, answer: SigningAnswer) -> SigningHistory {
        match (work.stage, answer) {
            (SigningStageView::CacheContract { .. }, SigningAnswer::Passed) => self.remembering(
                work.current(),
            ),
            (SigningStageView::Signature { .. }, SigningAnswer::Signature(_)) => self.signing(
                work.current(),
            ),
            _ => self,
        }
    }

    /// Every contract that was signed is the one that the wallet remembers for the output it
    /// spends.
    pub open spec fn well_formed(self) -> bool {
        forall|k: int|
            0 <= k < self.signed.len() ==> self.cache.contains_pair(
                (#[trigger] self.signed[k]).0,
                self.signed[k].1,
            )
    }
}

impl SigningFacts {
    /// The facts with the wallet's answer about the spent output as its memory has it, where the
    /// wallet does not fail.
    pub open spec fn looked_up(
        self,
        info: ContractTxInfoForSender,
        history: SigningHistory,
    ) -> SigningFacts {
        SigningFacts {
            prevout_matches: match self.prevout_matches {
                Ok(_) => Ok(history.no_other_contract(info)),
                Err(error) => Err(error),
            },
            ..self
        }
    }

    /// Whether the contract transaction gets as far as being remembered.
    pub open spec fn remembers(self, info: ContractTxInfoForSender) -> bool {
        &&& crate::signing::moves_one_coin(info.senders_contract_tx)
        &&& self.prevout_matches == Ok::<bool, MakerError>(true)
        &&& self.keypair matches Ok((secret, _))
        &&& self.multisig_pubkey is Ok
        &&& crate::keys::tweaked(secret@, info.hashlock_nonce@) != 0
        &&& self.contract_output is Ok
        &&& self.cached is Ok
    }

    /// What the wallet remembers behind the contract transaction, with `history` before it.
    pub open spec fn left(
        self,
        info: ContractTxInfoForSender,
        history: SigningHistory,
    ) -> SigningHistory {
        if self.remembers(info) {
            history.remembering(info)
        } else {
            history
        }
    }
}

/// What a request ends with, and what it leaves behind.
pub struct SigningEnd {
    pub outcome: Result<Seq<Signature>, MakerError>,
    pub history: SigningHistory,
}

impl<'m> SigningView<'m> {
    /// The answer to the open question, with the wallet's memory as `history` has it and every
    /// other answer from `facts`.
    pub open spec fn remembered_answer(
        self,
        facts: Seq<SigningFacts>,
        history: SigningHistory,
    ) -> SigningAnswer {
        facts[self.position as int].looked_up(self.current(), history).answer(self.stage)
    }

    /// What the work ends with and leaves behind when every question is answered that way.
    pub open spec fn concluded(
        self,
        facts: Seq<SigningFacts>,
        history: SigningHistory,
    ) -> SigningEnd
        decreases self.message.txs_info.len() - self.position, self.questions_left(),
        when self.well_formed()
    {
        match self.stage {
            SigningStageView::Signed => SigningEnd { outcome: Ok(self.signatures), history },
            SigningStageView::Refused(error) => SigningEnd { outcome: Err(error), history },
            _ => {
                let answer = self.remembered_answer(facts, history);
                self.after(answer).concluded(facts, history.after(self, answer))
            },
        }
    }
}

/// A request, worked through from its first question to its end.
pub open spec fn request(
    message: &ReqContractSigsForSender,
    facts: Seq<SigningFacts>,
    history: SigningHistory,
) -> SigningEnd {
    SigningView::entering(message, 0, Seq::empty()).concluded(facts, history)
}

/// The end of a request from the contract transaction at `position` on, one transaction after the
/// other.
spec fn remaining(
    message: &ReqContractSigsForSender,
    facts: Seq<SigningFacts>,
    position: nat,
    signatures: Seq<Signature>,
    history: SigningHistory,
) -> SigningEnd
    decreases message.txs_info.len() - position,
{
    if position >= message.txs_info.len() {
        SigningEnd { outcome: Ok(signatures), history }
    } else {
        let info = message.txs_info@[position as int];
        let fact = facts[position as int].looked_up(info, history);
        let left = fact.left(info, history);
        match fact.refusal(info) {
            Some(error) => SigningEnd { outcome: Err(error), history: left },
            None => remaining(
                message,
                facts,
                position + 1,
                signatures.push(fact.signature->Ok_0),
                left.signing(info),
            ),
        }
    }
}

/// One question, and what lies behind it.
proof fn lemma_step<'m>(
    work: SigningView<'m>,
    facts: Seq<SigningFacts>,
    history: SigningHistory,
) -> (next: (SigningView<'m>, SigningHistory))
    requires
        work.well_formed(),
        !(work.stage is Signed),
        !(work.stage is Refused),
    ensures
        ({
            let answer = work.remembered_answer(facts, history);
            next == (work.after(answer), history.after(work, answer))
        }),
        next.0.well_formed(),
        work.concluded(facts, history) == next.0.concluded(facts, next.1),
{
    let answer = work.remembered_answer(facts, history);
    (work.after(answer), history.after(work, answer))
}

/// The questions about one contract transaction.
#[verifier::rlimit(50)]
proof fn lemma_current(
    message: &ReqContractSigsForSender,
    facts: Seq<SigningFacts>,
    position: nat,
    signatures: Seq<Signature>,
    history: SigningHistory,
)
    requires
        position < message.txs_info.len(),
        signatures.len() == position,
    ensures
        ({
            let info = message.txs_info@[position as int];
            let fact = facts[position as int].looked_up(info, history);
            let left = fact.left(info, history);
            SigningView::entering(message, position, signatures).concluded(facts, history)
                == match fact.refusal(info) {
                Some(error) => SigningEnd { outcome: Err(error), history: left },
                None => SigningView::entering(
                    message,
                    position + 1,
                    signatures.push(fact.signature->Ok_0),
                ).concluded(facts, left.signing(info)),
            }
        }),
{
    let info = message.txs_info@[position as int];
    let work = SigningView::entering(message, position, signatures);
    if crate::signing::moves_one_coin(info.senders_contract_tx) {
        let (work, past) = lemma_step(work, facts, history);
        if !(work.stage is Refused) {
            let (work, past) = lemma_step(work, facts, past);
            if !(work.stage is Refused) {
                let (work, past) = lemma_step(work, facts, past);
                if !(work.stage is Refused) {
                    let (work, past) = lemma_step(work, facts, past);
                    if !(work.stage is Refused) {
                        let (work, past) = lemma_step(work, facts, past);
                        if !(work.stage is Refused) {
                            let (work, past) = lemma_step(work, facts, past);
                        }
                    }
                }
            }
        }
    }
}

proof fn lemma_remaining(
    message: &ReqContractSigsForSender,
    facts: Seq<SigningFacts>,
    position: nat,
    signatures: Seq<Signature>,
    history: SigningHistory,
)
    requires
        position <= message.txs_info.len(),
        signatures.len() == position,
    ensures
        SigningView::entering(message, position, signatures).concluded(facts, history)
            == remaining(message, facts, position, signatures, history),
    decreases message.txs_info.len() - position,
{
    if position < message.txs_info.len() {
        lemma_current(message, facts, position, signatures, history);
        let info = message.txs_info@[position as int];
        let fact = facts[position as int].looked_up(info, history);
        if fact.refusal(info) is None {
            let left = fact.left(info, history);
            lemma_remaining(
                message,
                facts,
                position + 1,
                signatures.push(fact.signature->Ok_0),
                left.signing(info),
            );
        }
    }
}

/// A memory that grows twice has grown.
proof fn lemma_grow(
    a: Map<OutPoint, Seq<u8>>,
    b: Map<OutPoint, Seq<u8>>,
    c: Map<OutPoint, Seq<u8>>,
)
    requires
        a.submap_of(b),
        b.submap_of(c),
    ensures
        a.submap_of(c),
        forall|p: OutPoint, s: Seq<u8>| #[trigger]
            a.contains_pair(p, s) ==> c.contains_pair(p, s),
        forall|p: OutPoint, s: Seq<u8>| #[trigger]
            b.contains_pair(p, s) ==> c.contains_pair(p, s),
{
    assert forall|p: OutPoint| #[trigger] a.dom().contains(p) implies c.dom().contains(p) && a[p]
        == c[p] by {
        assert(b.dom().contains(p));
    }
    assert forall|p: OutPoint, s: Seq<u8>| #[trigger] b.contains_pair(p, s) implies c.contains_pair(
        p,
        s,
    ) by {
        assert(b.dom().contains(p));
    }
}

/// What holds of what a request leaves behind, from the contract transaction at `position` on.
proof fn lemma_history(
    message: &ReqContractSigsForSender,
    facts: Seq<SigningFacts>,
    position: nat,
    signatures: Seq<Signature>,
    history: SigningHistory,
)
    requires
        position <= message.txs_info.len(),
    ensures
        ({
            let end = remaining(message, facts, position, signatures, history);
            &&& history.well_formed() ==> end.history.well_formed()
            &&& history.cache.submap_of(end.history.cache)
            &&& history.signed.is_prefix_of(end.history.signed)
            &&& forall|p: OutPoint| #[trigger]
                end.history.cache.contains_key(p) ==> history.cache.contains_key(p) || exists|i: int|
                    position <= i < message.txs_info.len() && spent_output(
                        #[trigger] message.txs_info@[i],
                    ) == p
            &&& end.outcome is Ok ==> forall|i: int|
                position <= i < message.txs_info.len() ==> end.history.cache.contains_pair(
                    spent_output(#[trigger] message.txs_info@[i]),
                    contract_script(message.txs_info@[i]),
                )
        }),
    decreases message.txs_info.len() - position,
{
    if position < message.txs_info.len() {
        let info = message.txs_info@[position as int];
        let fact = facts[position as int].looked_up(info, history);
        let left = fact.left(info, history);
        assert(history.cache.submap_of(left.cache));
        if fact.refusal(info) is None {
            let next = left.signing(info);
            assert(history.signed.is_prefix_of(next.signed));
            if history.well_formed() {
                assert forall|k: int| 0 <= k < next.signed.len() implies next.cache.contains_pair(
                    (#[trigger] next.signed[k]).0,
                    next.signed[k].1,
                ) by {
                    if k < history.signed.len() {
                        assert(next.signed[k] == history.signed[k]);
                    }
                }
            }
            lemma_history(
                message,
                facts,
                position + 1,
                signatures.push(fact.signature->Ok_0),
                next,
            );
            let end = remaining(message, facts, position, signatures, history);
            lemma_grow(history.cache, next.cache, end.history.cache);
            assert(next.cache.contains_pair(spent_output(info), contract_script(info)));
            assert(history.signed.is_prefix_of(end.history.signed)) by {
                assert(history.signed =~= end.history.signed.take(next.signed.len() as int).take(
                    history.signed.len() as int,
                ));
            }
        }
    }
}

/// A request, one contract transaction after the other.
proof fn lemma_request(
    message: &ReqContractSigsForSender,
    facts: Seq<SigningFacts>,
    history: SigningHistory,
)
    ensures
        request(message, facts, history) == remaining(message, facts, 0, Seq::empty(), history),
{
    lemma_remaining(message, facts, 0, Seq::empty(), history);
}

/// What the wallet remembers is never replaced: a request only adds, and only outputs that its own
/// contract transactions spend.
pub proof fn law_memory_only_grows(
    message: &ReqContractSigsForSender,
    facts: Seq<SigningFacts>,
    history: SigningHistory,
)
    ensures
        history.cache.submap_of(request(message, facts, history).history.cache),
        history.signed.is_prefix_of(request(message, facts, history).history.signed),
        forall|p: OutPoint| #[trigger]
            request(message, facts, history).history.cache.contains_key(p)
                ==> history.cache.contains_key(p) || exists|i: int|
                0 <= i < message.txs_info.len() && spent_output(#[trigger] message.txs_info@[i])
                    == p,
{
    lemma_request(message, facts, history);
    lemma_history(message, facts, 0, Seq::empty(), history);
}

/// What requests leave behind, one after the other, each with its own answers.
pub open spec fn requests(
    messages: Seq<(&ReqContractSigsForSender, Seq<SigningFacts>)>,
    history: SigningHistory,
) -> SigningHistory
    decreases messages.len(),
{
    if messages.len() == 0 {
        history
    } else {
        let before = requests(messages.drop_last(), history);
        request(messages.last().0, messages.last().1, before).history
    }
}

proof fn lemma_requests_well_formed(
    messages: Seq<(&ReqContractSigsForSender, Seq<SigningFacts>)>,
    history: SigningHistory,
)
    requires
        history.well_formed(),
    ensures
        requests(messages, history).well_formed(),
    decreases messages.len(),
{
    if messages.len() > 0 {
        let before = requests(messages.drop_last(), history);
        lemma_requests_well_formed(messages.drop_last(), history);
        lemma_request(messages.last().0, messages.last().1, before);
        lemma_history(messages.last().0, messages.last().1, 0, Seq::empty(), before);
    }
}

/// Over any number of requests, granted or refused, no two contracts with different scripts are
/// signed that spend one and the same output. The wallet may remember anything to begin with.
pub proof fn law_one_contract_is_signed_for_an_output(
    messages: Seq<(&ReqContractSigsForSender, Seq<SigningFacts>)>,
    cache: Map<OutPoint, Seq<u8>>,
    k: int,
    l: int,
)
    requires
        ({
            let signed = requests(messages, SigningHistory { cache, signed: Seq::empty() }).signed;
            0 <= k < signed.len() && 0 <= l < signed.len() && signed[k].0 == signed[l].0
        }),
    ensures
        ({
            let signed = requests(messages, SigningHistory { cache, signed: Seq::empty() }).signed;
            signed[k].1 == signed[l].1
        }),
{
    let start = SigningHistory { cache, signed: Seq::empty() };
    lemma_requests_well_formed(messages, start);
    let end = requests(messages, start);
    assert(end.cache.contains_pair(end.signed[k].0, end.signed[k].1));
    assert(end.cache.contains_pair(end.signed[l].0, end.signed[l].1));
}

/// A granted request has every contract of it signed, in order, and remembered.
pub proof fn law_granted_request_is_signed_and_remembered(
    message: &ReqContractSigsForSender,
    facts: Seq<SigningFacts>,
    history: SigningHistory,
)
    requires
        request(message, facts, history).outcome is Ok,
    ensures
        request(message, facts, history).history.signed == history.signed + message.txs_info@.map_values(
            |info: ContractTxInfoForSender| (spent_output(info), contract_script(info)),
        ),
        forall|i: int|
            0 <= i < message.txs_info.len() ==> request(
                message,
                facts,
                history,
            ).history.cache.contains_pair(
                spent_output(#[trigger] message.txs_info@[i]),
                contract_script(message.txs_info@[i]),
            ),
{
    lemma_request(message, facts, history);
    lemma_history(message, facts, 0, Seq::empty(), history);
    lemma_signed(message, facts, 0, Seq::empty(), history);
    assert(message.txs_info@.skip(0) =~= message.txs_info@);
}

proof fn lemma_signed(
    message: &ReqContractSigsForSender,
    facts: Seq<SigningFacts>,
    position: nat,
    signatures: Seq<Signature>,
    history: SigningHistory,
)
    requires
        position <= message.txs_info.len(),
        remaining(message, facts, position, signatures, history).outcome is Ok,
    ensures
        remaining(message, facts, position, signatures, history).history.signed == history.signed
            + message.txs_info@.skip(position as int).map_values(
            |info: ContractTxInfoForSender| (spent_output(info), contract_script(info)),
        ),
    decreases message.txs_info.len() - position,
{
    let pair = |info: ContractTxInfoForSender| (spent_output(info), contract_script(info));
    let rest = message.txs_info@.skip(position as int);
    if position < message.txs_info.len() {
        let info = message.txs_info@[position as int];
        let fact = facts[position as int].looked_up(info, history);
        let left = fact.left(info, history);
        lemma_signed(
            message,
            facts,
            position + 1,
            signatures.push(fact.signature->Ok_0),
            left.signing(info),
        );
        let after = message.txs_info@.skip(position as int + 1);
        assert(rest.map_values(pair) =~= seq![pair(info)] + after.map_values(pair));
        assert(left.signing(info).signed + after.map_values(pair) =~= history.signed
            + rest.map_values(pair));
    } else {
        assert(history.signed + rest.map_values(pair) =~= history.signed);
    }
}

/// Once a request was granted, a request that begins with another contract for an output that it
/// spends is refused as an attack; nothing more is signed, and the first contract stays remembered.
pub proof fn law_other_contract_for_a_signed_output_is_refused(
    first: &ReqContractSigsForSender,
    first_facts: Seq<SigningFacts>,
    history: SigningHistory,
    i: int,
    second: &ReqContractSigsForSender,
    second_facts: Seq<SigningFacts>,
)
    requires
        request(first, first_facts, history).outcome is Ok,
        0 <= i < first.txs_info.len(),
        second.txs_info.len() > 0,
        crate::signing::moves_one_coin(second.txs_info@[0].senders_contract_tx),
        spent_output(second.txs_info@[0]) == spent_output(first.txs_info@[i]),
        contract_script(second.txs_info@[0]) != contract_script(first.txs_info@[i]),
        second_facts[0].prevout_matches is Ok,
    ensures
        ({
            let granted = request(first, first_facts, history).history;
            let end = request(second, second_facts, granted);
            &&& end.outcome == Err::<Seq<Signature>, MakerError>(
                MakerError::General("taker attempting multiple contract attack, rejecting"),
            )
            &&& end.history == granted
            &&& end.history.cache.contains_pair(
                spent_output(first.txs_info@[i]),
                contract_script(first.txs_info@[i]),
            )
        }),
{
    let granted = request(first, first_facts, history).history;
    law_granted_request_is_signed_and_remembered(first, first_facts, history);
    assert(granted.cache.contains_pair(
        spent_output(first.txs_info@[i]),
        contract_script(first.txs_info@[i]),
    ));
    lemma_request(second, second_facts, granted);
}

/// Against a memory that holds every contract of it, a request that was granted is granted again,
/// with the same signatures, and the memory stays.
proof fn lemma_retry(
    message: &ReqContractSigsForSender,
    facts: Seq<SigningFacts>,
    position: nat,
    signatures: Seq<Signature>,
    history: SigningHistory,
    later: SigningHistory,
)
    requires
        position <= message.txs_info.len(),
        remaining(message, facts, position, signatures, history).outcome is Ok,
        forall|i: int|
            position <= i < message.txs_info.len() ==> later.cache.contains_pair(
                spent_output(#[trigger] message.txs_info@[i]),
                contract_script(message.txs_info@[i]),
            ),
    ensures
        remaining(message, facts, position, signatures, later).outcome == remaining(
            message,
            facts,
            position,
            signatures,
            history,
        ).outcome,
        remaining(message, facts, position, signatures, later).history.cache == later.cache,
    decreases message.txs_info.len() - position,
{
    if position < message.txs_info.len() {
        let info = message.txs_info@[position as int];
        let fact = facts[position as int].looked_up(info, history);
        let again = facts[position as int].looked_up(info, later);
        assert(later.cache.contains_pair(spent_output(info), contract_script(info)));
        assert(fact == again);
        let left = fact.left(info, history);
        assert(later.remembering(info).cache =~= later.cache);
        let left_again = again.left(info, later);
        lemma_retry(
            message,
            facts,
            position + 1,
            signatures.push(fact.signature->Ok_0),
            left.signing(info),
            left_again.signing(info),
        );
    }
}

/// A granted request that comes again, with the same keys, checks and signatures, is granted again:
/// the same signatures are returned, and the wallet's memory stays as it was. So it is at once, and
/// after any other requests in between.
pub proof fn law_identical_retry_is_granted_again(
    message: &ReqContractSigsForSender,
    facts: Seq<SigningFacts>,
    history: SigningHistory,
    between: Seq<(&ReqContractSigsForSender, Seq<SigningFacts>)>,
)
    requires
        request(message, facts, history).outcome is Ok,
    ensures
        ({
            let first = request(message, facts, history);
            let again = request(message, facts, first.history);
            &&& again.outcome == first.outcome
            &&& again.history.cache == first.history.cache
        }),
        ({
            let first = request(message, facts, history);
            let later = requests(between, first.history);
            let again = request(message, facts, later);
            &&& again.outcome == first.outcome
            &&& again.history.cache == later.cache
        }),
{
    let first = request(message, facts, history);
    let later = requests(between, first.history);
    law_granted_request_is_signed_and_remembered(message, facts, history);
    lemma_requests_grow(between, first.history);
    lemma_request(message, facts, history);
    lemma_request(message, facts, first.history);
    lemma_request(message, facts, later);
    lemma_retry(message, facts, 0, Seq::empty(), history, first.history);
    lemma_grow(first.history.cache, later.cache, later.cache);
    assert forall|i: int| 0 <= i < message.txs_info.len() implies later.cache.contains_pair(
        spent_output(#[trigger] message.txs_info@[i]),
        contract_script(message.txs_info@[i]),
    ) by {
        assert(first.history.cache.contains_pair(
            spent_output(message.txs_info@[i]),
            contract_script(message.txs_info@[i]),
        ));
    }
    lemma_retry(message, facts, 0, Seq::empty(), history, later);
}

pub(crate) proof fn lemma_requests_grow(
    messages: Seq<(&ReqContractSigsForSender, Seq<SigningFacts>)>,
    history: SigningHistory,
)
    ensures
        history.cache.submap_of(requests(messages, history).cache),
    decreases messages.len(),
{
    if messages.len() > 0 {
        lemma_requests_grow(messages.drop_last(), history);
        law_memory_only_grows(
            messages.last().0,
            messages.last().1,
            requests(messages.drop_last(), history),
        );
        lemma_grow(
            history.cache,
            requests(messages.drop_last(), history).cache,
            requests(messages, history).cache,
        );
    }
}

impl SigningEnd {
    /// The end of a request behind one that yielded `signatures`.
    pub open spec fn behind(self, signatures: Seq<Signature>) -> SigningEnd {
        SigningEnd {
            outcome: match self.outcome {
                Ok(more) => Ok(signatures + more),
                Err(error) => Err(error),
            },
            history: self.history,
        }
    }
}

proof fn lemma_joined_second(
    joined: &ReqContractSigsForSender,
    facts: Seq<SigningFacts>,
    second: &ReqContractSigsForSender,
    second_facts: Seq<SigningFacts>,
    offset: nat,
    position: nat,
    signatures: Seq<Signature>,
    more: Seq<Signature>,
    history: SigningHistory,
)
    requires
        joined.txs_info.len() == offset + second.txs_info.len(),
        position <= second.txs_info.len(),
        forall|i: int|
            0 <= i < second.txs_info.len() ==> (#[trigger] second.txs_info@[i])
                == joined.txs_info@[offset + i] && second_facts[i] == facts[offset + i],
    ensures
        remaining(joined, facts, offset + position, signatures + more, history) == remaining(
            second,
            second_facts,
            position,
            more,
            history,
        ).behind(signatures),
    decreases second.txs_info.len() - position,
{
    if position < second.txs_info.len() {
        let info = second.txs_info@[position as int];
        let fact = second_facts[position as int].looked_up(info, history);
        let left = fact.left(info, history);
        let signature = fact.signature->Ok_0;
        assert((signatures + more).push(signature) =~= signatures + more.push(signature));
        lemma_joined_second(
            joined,
            facts,
            second,
            second_facts,
            offset,
            position + 1,
            signatures,
            more.push(signature),
            left.signing(info),
        );
    }
}

proof fn lemma_joined_first(
    joined: &ReqContractSigsForSender,
    facts: Seq<SigningFacts>,
    first: &ReqContractSigsForSender,
    first_facts: Seq<SigningFacts>,
    position: nat,
    signatures: Seq<Signature>,
    history: SigningHistory,
)
    requires
        position <= first.txs_info.len() <= joined.txs_info.len(),
        forall|i: int|
            0 <= i < first.txs_info.len() ==> (#[trigger] first.txs_info@[i])
                == joined.txs_info@[i] && first_facts[i] == facts[i],
    ensures
        ({
            let end = remaining(first, first_facts, position, signatures, history);
            remaining(joined, facts, position, signatures, history) == match end.outcome {
                Ok(all) => remaining(
                    joined,
                    facts,
                    first.txs_info@.len(),
                    all,
                    end.history,
                ),
                Err(_) => end,
            }
        }),
    decreases first.txs_info.len() - position,
{
    if position < first.txs_info.len() {
        let info = first.txs_info@[position as int];
        let fact = first_facts[position as int].looked_up(info, history);
        let left = fact.left(info, history);
        lemma_joined_first(
            joined,
            facts,
            first,
            first_facts,
            position + 1,
            signatures.push(fact.signature->Ok_0),
            left.signing(info),
        );
    }
}

/// One request for the contracts of two is as good as the one behind the other: it leaves the same
/// behind, is refused where one of them is, with the same error, and else yields the signatures of
/// the first and then those of the second.
pub proof fn law_joined_request_is_one_behind_the_other(
    joined: &ReqContractSigsForSender,
    first: &ReqContractSigsForSender,
    first_facts: Seq<SigningFacts>,
    second: &ReqContractSigsForSender,
    second_facts: Seq<SigningFacts>,
    history: SigningHistory,
)
    requires
        joined.txs_info@ == first.txs_info@ + second.txs_info@,
        first_facts.len() == first.txs_info.len(),
        second_facts.len() == second.txs_info.len(),
    ensures
        ({
            let end = request(first, first_facts, history);
            request(joined, first_facts + second_facts, history) == match end.outcome {
                Ok(signatures) => request(second, second_facts, end.history).behind(signatures),
                Err(_) => end,
            }
        }),
{
    let facts = first_facts + second_facts;
    let end = request(first, first_facts, history);
    lemma_request(joined, facts, history);
    lemma_request(first, first_facts, history);
    lemma_request(second, second_facts, end.history);
    lemma_joined_first(joined, facts, first, first_facts, 0, Seq::empty(), history);
    if let Ok(signatures) = end.outcome {
        assert(signatures + Seq::<Signature>::empty() =~= signatures);
        lemma_joined_second(
            joined,
            facts,
            second,
            second_facts,
            first.txs_info@.len(),
            0,
            signatures,
            Seq::empty(),
            end.history,
        );
    }
}

} // verus!
