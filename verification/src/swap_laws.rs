//! Proofs of funding against the contracts that the wallet remembers from requests for signatures.

use vstd::prelude::*;

use crate::error::MakerError;
use crate::funding::FundingCheck;
use crate::funding_laws::FundingFacts;
use crate::messages::{FundingTxInfo, Hash160, ProofOfFunding, ReqContractSigsForSender};
use crate::signing_cache_laws::SigningHistory;
use crate::signing_laws::SigningFacts;
use crate::transaction::OutPoint;

verus! {

impl FundingFacts {
    /// The output of the funding transaction that was found to pay the multisig.
    pub open spec fn funded_output(self, info: FundingTxInfo) -> OutPoint {
        OutPoint { txid: info.funding_tx@.txid(), vout: self.output_index->Ok_0 }
    }

    /// Whether the wallet keeps no other script for the funded output.
    pub open spec fn no_other_contract(self, info: FundingTxInfo, history: SigningHistory) -> bool {
        history.cache.contains_key(self.funded_output(info)) ==> history.cache[self.funded_output(
            info,
        )] == self.contract_script@
    }

    /// The facts with the wallet's answer about the funded output as its memory has it, where the
    /// wallet does not fail.
    pub open spec fn looked_up(self, info: FundingTxInfo, history: SigningHistory) -> FundingFacts {
        FundingFacts {
            prevout_matches: match self.prevout_matches {
                Ok(_) => Ok(self.no_other_contract(info, history)),
                Err(error) => Err(error),
            },
            ..self
        }
    }

    /// The first rule that the funding transaction breaks, under the limits of a check.
    pub open spec fn refusal_in(self, check: FundingCheck<'_>) -> Option<MakerError> {
        self.refusal(
            check.message.next_locktime,
            check.min_contract_reaction_time,
            check.required_confirms,
        )
    }

    /// Whether the funding transaction meets every rule but that on the wallet's memory.
    pub open spec fn otherwise_acceptable(self, check: FundingCheck<'_>) -> bool {
        (FundingFacts { prevout_matches: Ok(true), ..self }).refusal_in(check) is None
    }
}

/// The facts about every funding transaction of a message, with the wallet's memory as `history`
/// has it.
pub open spec fn looked_up(
    message: &ProofOfFunding,
    facts: Seq<FundingFacts>,
    history: SigningHistory,
) -> Seq<FundingFacts> {
    Seq::new(
        facts.len(),
        |i: int| facts[i].looked_up(message.confirmed_funding_txes@[i], history),
    )
}

/// The verdict is the refusal of the first funding transaction that breaks a rule.
proof fn lemma_first_refusal(
    check: FundingCheck<'_>,
    facts: Seq<FundingFacts>,
    hash: Result<Hash160, MakerError>,
    position: int,
    i: int,
)
    requires
        0 <= position <= i < check.message.confirmed_funding_txes.len(),
        forall|k: int| position <= k < i ==> (#[trigger] facts[k]).refusal_in(check) is None,
        facts[i].refusal_in(check) is Some,
    ensures
        check.verdict(facts, hash, position) == Err::<Hash160, MakerError>(
            facts[i].refusal_in(check)->0,
        ),
    decreases i - position,
{
    if position < i {
        assert(facts[position].refusal_in(check) is None);
        lemma_first_refusal(check, facts, hash, position + 1, i);
    }
}

/// The memory that a proof of funding is checked against is the one that requests for signatures
/// fill. After a granted request, and any others behind it, a proof of funding that names another
/// contract script for an output which that request spends is refused. Where nothing else refuses
/// it before, it is refused for that.
pub proof fn law_funding_with_another_contract_is_refused(
    request: &ReqContractSigsForSender,
    request_facts: Seq<SigningFacts>,
    history: SigningHistory,
    between: Seq<(&ReqContractSigsForSender, Seq<SigningFacts>)>,
    j: int,
    message: &ProofOfFunding,
    min_contract_reaction_time: u16,
    required_confirms: u64,
    facts: Seq<FundingFacts>,
    hash: Result<Hash160, MakerError>,
    i: int,
)
    requires
        crate::signing_cache_laws::request(request, request_facts, history).outcome is Ok,
        0 <= j < request.txs_info.len(),
        facts.len() == message.confirmed_funding_txes.len(),
        0 <= i < facts.len(),
        facts[i].output_index is Ok,
        facts[i].funded_output(message.confirmed_funding_txes@[i])
            == crate::signing_cache_laws::spent_output(request.txs_info@[j]),
        facts[i].contract_script@ != crate::signing_cache_laws::contract_script(
            request.txs_info@[j],
        ),
    ensures
        ({
            let granted = crate::signing_cache_laws::request(request, request_facts, history);
            let later = crate::signing_cache_laws::requests(between, granted.history);
            let known = looked_up(message, facts, later);
            let check = FundingCheck::start(message, min_contract_reaction_time, required_confirms);
            &&& check.outcome(known, hash) is Err
            &&& (forall|k: int| 0 <= k < i ==> (#[trigger] known[k]).refusal_in(check) is None)
                && facts[i].otherwise_acceptable(check) && facts[i].prevout_matches is Ok
                ==> check.outcome(known, hash) == Err::<Hash160, MakerError>(
                MakerError::General(
                    "provided contract does not match sender contract tx, rejecting",
                ),
            )
        }),
{
    let granted = crate::signing_cache_laws::request(request, request_facts, history);
    let later = crate::signing_cache_laws::requests(between, granted.history);
    let known = looked_up(message, facts, later);
    let check = FundingCheck::start(message, min_contract_reaction_time, required_confirms);
    let output = crate::signing_cache_laws::spent_output(request.txs_info@[j]);
    crate::signing_cache_laws::law_granted_request_is_signed_and_remembered(
        request,
        request_facts,
        history,
    );
    assert(granted.history.cache.contains_pair(
        output,
        crate::signing_cache_laws::contract_script(request.txs_info@[j]),
    ));
    crate::signing_cache_laws::lemma_requests_grow(between, granted.history);
    assert(granted.history.cache.dom().contains(output));
    assert(later.cache.dom().contains(output));
    assert(known[i].prevout_matches != Ok::<bool, MakerError>(true));
    assert(known[i].refusal_in(check) is Some);
    crate::funding_laws::law_first_broken_rule_decides(
        message,
        min_contract_reaction_time,
        required_confirms,
        known,
        hash,
    );
    if let Ok(value) = check.outcome(known, hash) {
        crate::funding_laws::law_accepted_exactly_when_all_rules_hold(
            message,
            min_contract_reaction_time,
            required_confirms,
            known,
            hash,
            value,
        );
        assert(known[i].acceptable(
            message.next_locktime,
            min_contract_reaction_time,
            required_confirms,
        ));
    }
    if forall|k: int| 0 <= k < i ==> (#[trigger] known[k]).refusal_in(check) is None {
        lemma_first_refusal(check, known, hash, 0, i);
    }
}

/// After a granted request, and any others behind it, a proof of funding that names the signed
/// contract for an output which that request spends is not refused for it: asked about that
/// output, the wallet says that it matches.
pub proof fn law_funding_with_the_signed_contract_matches(
    request: &ReqContractSigsForSender,
    request_facts: Seq<SigningFacts>,
    history: SigningHistory,
    between: Seq<(&ReqContractSigsForSender, Seq<SigningFacts>)>,
    j: int,
    info: FundingTxInfo,
    fact: FundingFacts,
)
    requires
        crate::signing_cache_laws::request(request, request_facts, history).outcome is Ok,
        0 <= j < request.txs_info.len(),
        fact.output_index is Ok,
        fact.prevout_matches is Ok,
        fact.funded_output(info) == crate::signing_cache_laws::spent_output(request.txs_info@[j]),
        fact.contract_script@ == crate::signing_cache_laws::contract_script(request.txs_info@[j]),
    ensures
        ({
            let granted = crate::signing_cache_laws::request(request, request_facts, history);
            let later = crate::signing_cache_laws::requests(between, granted.history);
            fact.looked_up(info, later).prevout_matches == Ok::<bool, MakerError>(true)
        }),
{
    let granted = crate::signing_cache_laws::request(request, request_facts, history);
    let output = crate::signing_cache_laws::spent_output(request.txs_info@[j]);
    crate::signing_cache_laws::law_granted_request_is_signed_and_remembered(
        request,
        request_facts,
        history,
    );
    assert(granted.history.cache.contains_pair(
        output,
        crate::signing_cache_laws::contract_script(request.txs_info@[j]),
    ));
    crate::signing_cache_laws::lemma_requests_grow(between, granted.history);
    assert(granted.history.cache.dom().contains(output));
}

} // verus!
