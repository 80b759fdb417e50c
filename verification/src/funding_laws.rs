//! What an examined proof of funding ends with.

use vstd::prelude::*;

use crate::error::MakerError;
use crate::funding::{FundingAnswer, FundingCheck, FundingQuestion, FundingStage};
use crate::keys::PublicKey;
use crate::messages::{FundingTxInfo, Hash160, ProofOfFunding};
use crate::transaction::{OutPoint, ScriptBuf};

verus! {

/// What the questions about one funding transaction are answered with, were they all asked.
pub struct FundingFacts {
    pub contract_locktime: Result<u16, MakerError>,
    pub output_index: Result<u32, MakerError>,
    pub confirmations: Result<Option<u32>, MakerError>,
    pub multisig_script: Result<(), MakerError>,
    pub tweakable_pubkey: Result<PublicKey, MakerError>,
    pub multisig_pubkey: Result<(), MakerError>,
    pub hashlock_pubkey: Result<(), MakerError>,
    pub contract_script: ScriptBuf,
    pub prevout_matches: Result<bool, MakerError>,
}

impl FundingFacts {
    /// The fact that answers what is awaited at `stage`.
    pub open spec fn answer(self, stage: FundingStage) -> FundingAnswer {
        match stage {
            FundingStage::ContractLocktime => match self.contract_locktime {
                Ok(locktime) => FundingAnswer::Locktime(locktime),
                Err(error) => FundingAnswer::Failed(error),
            },
            FundingStage::OutputIndex => match self.output_index {
                Ok(vout) => FundingAnswer::OutputIndex(vout),
                Err(error) => FundingAnswer::Failed(error),
            },
            FundingStage::TxOut { .. } => match self.confirmations {
                Ok(output) => FundingAnswer::TxOut(output),
                Err(error) => FundingAnswer::Failed(error),
            },
            FundingStage::MultisigScript { .. } => match self.multisig_script {
                Ok(_) => FundingAnswer::Passed,
                Err(error) => FundingAnswer::Failed(error),
            },
            FundingStage::TweakablePubkey { .. } => match self.tweakable_pubkey {
                Ok(pubkey) => FundingAnswer::Pubkey(pubkey),
                Err(error) => FundingAnswer::Failed(error),
            },
            FundingStage::MultisigPubkey { .. } => match self.multisig_pubkey {
                Ok(_) => FundingAnswer::Passed,
                Err(error) => FundingAnswer::Failed(error),
            },
            FundingStage::HashlockPubkey { .. } => match self.hashlock_pubkey {
                Ok(_) => FundingAnswer::Passed,
                Err(error) => FundingAnswer::Failed(error),
            },
            FundingStage::ContractScript { .. } => FundingAnswer::Script(self.contract_script),
            _ => match self.prevout_matches {
                Ok(matches) => FundingAnswer::PrevoutMatches(matches),
                Err(error) => FundingAnswer::Failed(error),
            },
        }
    }

    /// Whether the funding transaction meets every rule of the maker.
    pub open spec fn acceptable(
        self,
        next_locktime: u16,
        min_contract_reaction_time: u16,
        required_confirms: u64,
    ) -> bool {
        &&& self.contract_locktime matches Ok(locktime)
        &&& locktime - next_locktime >= min_contract_reaction_time
        &&& self.output_index is Ok
        &&& self.confirmations matches Ok(Some(confirmations))
        &&& confirmations >= required_confirms % 0x1_0000_0000
        &&& self.multisig_script is Ok
        &&& self.tweakable_pubkey is Ok
        &&& self.multisig_pubkey is Ok
        &&& self.hashlock_pubkey is Ok
        &&& self.prevout_matches == Ok::<bool, MakerError>(true)
    }

    /// The first rule that the funding transaction breaks, in the order of the questions.
    pub open spec fn refusal(
        self,
        next_locktime: u16,
        min_contract_reaction_time: u16,
        required_confirms: u64,
    ) -> Option<MakerError> {
        if self.contract_locktime is Err {
            Some(self.contract_locktime->Err_0)
        } else if self.contract_locktime->Ok_0 - next_locktime < min_contract_reaction_time {
            Some(MakerError::General("Next hop locktime too close to current hop locktime"))
        } else if self.output_index is Err {
            Some(self.output_index->Err_0)
        } else if self.confirmations is Err {
            Some(self.confirmations->Err_0)
        } else if self.confirmations->Ok_0 is None {
            Some(MakerError::General("funding tx output doesnt exist"))
        } else if self.confirmations->Ok_0->0 < required_confirms % 0x1_0000_0000 {
            Some(MakerError::General("funding tx not confirmed to required depth"))
        } else if self.multisig_script is Err {
            Some(self.multisig_script->Err_0)
        } else if self.tweakable_pubkey is Err {
            Some(self.tweakable_pubkey->Err_0)
        } else if self.multisig_pubkey is Err {
            Some(self.multisig_pubkey->Err_0)
        } else if self.hashlock_pubkey is Err {
            Some(self.hashlock_pubkey->Err_0)
        } else if self.prevout_matches is Err {
            Some(self.prevout_matches->Err_0)
        } else if !self.prevout_matches->Ok_0 {
            Some(
                MakerError::General(
                    "provided contract does not match sender contract tx, rejecting",
                ),
            )
        } else {
            None
        }
    }
}

impl<'m> FundingCheck<'m> {
    /// The fact that answers the open question, with one entry of `facts` for each funding
    /// transaction and the shared hash value `hash`.
    pub open spec fn answer_from(
        self,
        facts: Seq<FundingFacts>,
        hash: Result<Hash160, MakerError>,
    ) -> FundingAnswer {
        match self.stage {
            FundingStage::HashValue => match hash {
                Ok(value) => FundingAnswer::HashValue(value),
                Err(error) => FundingAnswer::Failed(error),
            },
            _ => facts[self.position as int].answer(self.stage),
        }
    }

    /// How many questions may still be asked of the current funding transaction.
    pub open spec fn questions_left(self) -> nat {
        match self.stage {
            FundingStage::ContractLocktime => 10,
            FundingStage::OutputIndex => 9,
            FundingStage::TxOut { .. } => 8,
            FundingStage::MultisigScript { .. } => 7,
            FundingStage::TweakablePubkey { .. } => 6,
            FundingStage::MultisigPubkey { .. } => 5,
            FundingStage::HashlockPubkey { .. } => 4,
            FundingStage::ContractScript { .. } => 3,
            FundingStage::CachedContract { .. } => 2,
            FundingStage::HashValue => 1,
            FundingStage::Done(_) => 0,
        }
    }

    /// What the check ends with when every question is answered from the facts.
    pub open spec fn outcome(
        self,
        facts: Seq<FundingFacts>,
        hash: Result<Hash160, MakerError>,
    ) -> Result<Hash160, MakerError>
        decreases
            self.message.confirmed_funding_txes.len() - self.position,
            self.questions_left(),
        when self.well_formed()
    {
        match self.stage {
            FundingStage::Done(outcome) => outcome,
            _ => self.after(self.answer_from(facts, hash)).outcome(facts, hash),
        }
    }

    /// The first rule that the current funding transaction breaks, by the facts.
    pub open spec fn current_refusal(self, facts: Seq<FundingFacts>) -> Option<MakerError> {
        facts[self.position as int].refusal(
            self.message.next_locktime,
            self.min_contract_reaction_time,
            self.required_confirms,
        )
    }

    /// The verdict on the funding transactions from `position` on: the first rule broken by the
    /// first of them that breaks one, or else the answer about the hash values.
    pub open spec fn verdict(
        self,
        facts: Seq<FundingFacts>,
        hash: Result<Hash160, MakerError>,
        position: int,
    ) -> Result<Hash160, MakerError>
        decreases self.message.confirmed_funding_txes.len() - position,
    {
        if position >= self.message.confirmed_funding_txes.len() {
            hash
        } else {
            match facts[position].refusal(
                self.message.next_locktime,
                self.min_contract_reaction_time,
                self.required_confirms,
            ) {
                Some(error) => Err(error),
                None => self.verdict(facts, hash, position + 1),
            }
        }
    }
}

/// The questions about one funding transaction end at the first rule that it breaks, or else at the
/// next transaction.
#[verifier::rlimit(50)]
proof fn lemma_current(
    check: FundingCheck<'_>,
    facts: Seq<FundingFacts>,
    hash: Result<Hash160, MakerError>,
)
    requires
        check.well_formed(),
        check.stage is ContractLocktime,
    ensures
        check.outcome(facts, hash) == match check.current_refusal(facts) {
            Some(error) => Err(error),
            None => check.passed_current().outcome(facts, hash),
        },
{
    reveal_with_fuel(FundingCheck::outcome, 11);
}

/// From the first question about a funding transaction on, the check ends with the verdict.
proof fn lemma_remaining(
    check: FundingCheck<'_>,
    facts: Seq<FundingFacts>,
    hash: Result<Hash160, MakerError>,
)
    requires
        check.well_formed(),
        check.stage is ContractLocktime || check.stage is HashValue,
    ensures
        check.outcome(facts, hash) == check.verdict(facts, hash, check.position as int),
    decreases check.message.confirmed_funding_txes.len() - check.position,
{
    if check.stage is HashValue {
        reveal_with_fuel(FundingCheck::outcome, 2);
    } else {
        lemma_current(check, facts, hash);
        let next = check.passed_current();
        lemma_remaining(next, facts, hash);
        lemma_verdict_frame(check, next, facts, hash, next.position as int);
    }
}

/// The verdict depends on the message and the maker's limits alone.
proof fn lemma_verdict_frame(
    a: FundingCheck<'_>,
    b: FundingCheck<'_>,
    facts: Seq<FundingFacts>,
    hash: Result<Hash160, MakerError>,
    position: int,
)
    requires
        a.message == b.message,
        a.min_contract_reaction_time == b.min_contract_reaction_time,
        a.required_confirms == b.required_confirms,
    ensures
        a.verdict(facts, hash, position) == b.verdict(facts, hash, position),
    decreases a.message.confirmed_funding_txes.len() - position,
{
    if position < a.message.confirmed_funding_txes.len() {
        lemma_verdict_frame(a, b, facts, hash, position + 1);
    }
}

/// A proof of funding is refused with the first rule broken by the first funding transaction that
/// breaks one, whatever the rest of the message holds; with no transaction at all it is refused
/// for that; and else the answer about the shared hash value is what is returned.
pub proof fn law_first_broken_rule_decides(
    message: &ProofOfFunding,
    min_contract_reaction_time: u16,
    required_confirms: u64,
    facts: Seq<FundingFacts>,
    hash: Result<Hash160, MakerError>,
)
    ensures
        ({
            let check = FundingCheck::start(message, min_contract_reaction_time, required_confirms);
            check.outcome(facts, hash) == if message.confirmed_funding_txes.len() == 0 {
                Err(MakerError::General("No funding txs provided by Taker"))
            } else {
                check.verdict(facts, hash, 0)
            }
        }),
{
    let check = FundingCheck::start(message, min_contract_reaction_time, required_confirms);
    if message.confirmed_funding_txes.len() != 0 {
        lemma_remaining(check, facts, hash);
    }
}

/// The verdict is a hash value exactly when no remaining funding transaction breaks a rule.
proof fn lemma_verdict_ok(
    check: FundingCheck<'_>,
    facts: Seq<FundingFacts>,
    hash: Result<Hash160, MakerError>,
    position: int,
)
    requires
        0 <= position <= check.message.confirmed_funding_txes.len(),
    ensures
        check.verdict(facts, hash, position) is Ok <==> hash is Ok && forall|i: int|
            position <= i < check.message.confirmed_funding_txes.len()
                ==> #[trigger] facts[i].acceptable(
                check.message.next_locktime,
                check.min_contract_reaction_time,
                check.required_confirms,
            ),
        check.verdict(facts, hash, position) is Ok ==> check.verdict(facts, hash, position) == hash,
    decreases check.message.confirmed_funding_txes.len() - position,
{
    if position < check.message.confirmed_funding_txes.len() {
        lemma_verdict_ok(check, facts, hash, position + 1);
        let fact = facts[position];
        assert(fact.acceptable(
            check.message.next_locktime,
            check.min_contract_reaction_time,
            check.required_confirms,
        ) <==> fact.refusal(
            check.message.next_locktime,
            check.min_contract_reaction_time,
            check.required_confirms,
        ) is None);
    }
}

/// A proof of funding yields a hash value exactly when it names a funding transaction, every one
/// that it names meets every rule of the maker, and all contracts share that hash value.
pub proof fn law_accepted_exactly_when_all_rules_hold(
    message: &ProofOfFunding,
    min_contract_reaction_time: u16,
    required_confirms: u64,
    facts: Seq<FundingFacts>,
    hash: Result<Hash160, MakerError>,
    value: Hash160,
)
    ensures
        FundingCheck::start(message, min_contract_reaction_time, required_confirms).outcome(
            facts,
            hash,
        ) == Ok::<Hash160, MakerError>(value) <==> {
            &&& message.confirmed_funding_txes.len() > 0
            &&& forall|i: int|
                0 <= i < message.confirmed_funding_txes.len() ==> #[trigger] facts[i].acceptable(
                    message.next_locktime,
                    min_contract_reaction_time,
                    required_confirms,
                )
            &&& hash == Ok::<Hash160, MakerError>(value)
        },
{
    let check = FundingCheck::start(message, min_contract_reaction_time, required_confirms);
    law_first_broken_rule_decides(
        message,
        min_contract_reaction_time,
        required_confirms,
        facts,
        hash,
    );
    if message.confirmed_funding_txes.len() != 0 {
        lemma_verdict_ok(check, facts, hash, 0);
    }
}

/// The output of the funding transaction that a stage is about, once it is found.
pub open spec fn output_of(stage: FundingStage) -> Option<u32> {
    match stage {
        FundingStage::TxOut { vout } => Some(vout),
        FundingStage::MultisigScript { vout } => Some(vout),
        FundingStage::TweakablePubkey { vout } => Some(vout),
        FundingStage::MultisigPubkey { vout, .. } => Some(vout),
        FundingStage::HashlockPubkey { vout, .. } => Some(vout),
        FundingStage::ContractScript { vout } => Some(vout),
        FundingStage::CachedContract { vout, .. } => Some(vout),
        _ => None,
    }
}

/// The output whose confirmations the node is asked for is the output whose cached contract the
/// wallet is asked for, and the key looked for in the multisig is the key looked for in the
/// hashlock: while a funding transaction is examined, its output stays the same, and so does the
/// key.
pub proof fn law_one_output_and_one_key_are_examined(
    check: FundingCheck<'_>,
    answer: FundingAnswer,
)
    requires
        check.well_formed(),
        check.accepts(answer),
    ensures
        ({
            let next = check.after(answer);
            &&& output_of(check.stage) is Some && output_of(next.stage) is Some ==> output_of(
                next.stage,
            ) == output_of(check.stage) && next.position == check.position
            &&& output_of(next.stage) is Some && output_of(check.stage) is None ==> answer
                == FundingAnswer::OutputIndex(output_of(next.stage)->0)
            &&& next.stage matches FundingStage::HashlockPubkey { pubkey, .. }
                ==> check.stage matches FundingStage::MultisigPubkey { pubkey: same, .. } && same
                == pubkey
        }),
{
}

/// A course of the check of a proof of funding, under the limits of a maker: `checks[k]` is the
/// check once the first `k` answers are in.
pub struct FundingCourse<'m> {
    pub message: &'m ProofOfFunding,
    pub min_contract_reaction_time: u16,
    pub required_confirms: u64,
    pub checks: Seq<FundingCheck<'m>>,
    pub answers: Seq<FundingAnswer>,
}

impl<'m> FundingCourse<'m> {
    /// The course begins with the check as it is started, each answer is one that the check before
    /// it takes, and each check is the one before it with that answer.
    pub open spec fn well_formed(self) -> bool {
        &&& self.checks.len() == self.answers.len() + 1
        &&& self.checks[0] == FundingCheck::start(
            self.message,
            self.min_contract_reaction_time,
            self.required_confirms,
        )
        &&& forall|k: int|
            #![trigger self.answers[k]]
            0 <= k < self.answers.len() ==> self.checks[k].accepts(self.answers[k])
                && self.checks[k + 1] == self.checks[k].after(self.answers[k])
    }

    /// The question that is open at a moment.
    pub open spec fn question(self, k: int) -> Option<FundingQuestion<'m>> {
        self.checks[k].open_question()
    }

    /// The entry of the message at a position.
    pub open spec fn entry(self, i: int) -> FundingTxInfo {
        self.message.confirmed_funding_txes@[i]
    }
}

/// What is awaited at a moment of a course, by the answers before it: nine things of each funding
/// transaction, one after the other, and then the hash value.
spec fn awaited(answers: Seq<FundingAnswer>, i: int, q: int) -> FundingStage {
    let vout = answers[9 * i + 1]->OutputIndex_0;
    let pubkey = answers[9 * i + 4]->Pubkey_0;
    if q == 0 {
        FundingStage::ContractLocktime
    } else if q == 1 {
        FundingStage::OutputIndex
    } else if q == 2 {
        FundingStage::TxOut { vout }
    } else if q == 3 {
        FundingStage::MultisigScript { vout }
    } else if q == 4 {
        FundingStage::TweakablePubkey { vout }
    } else if q == 5 {
        FundingStage::MultisigPubkey { vout, pubkey }
    } else if q == 6 {
        FundingStage::HashlockPubkey { vout, pubkey }
    } else if q == 7 {
        FundingStage::ContractScript { vout }
    } else {
        FundingStage::CachedContract { vout, script: answers[9 * i + 7]->Script_0 }
    }
}

/// The check at a moment of its course.
proof fn lemma_moment<'m>(course: FundingCourse<'m>, k: int)
    requires
        course.well_formed(),
        0 <= k <= course.answers.len(),
    ensures
        course.checks[k].message == course.message,
        course.checks[k].min_contract_reaction_time == course.min_contract_reaction_time,
        course.checks[k].required_confirms == course.required_confirms,
        course.checks[k].well_formed(),
        course.checks[k].stage is Done ==> k == course.answers.len(),
        !(course.checks[k].stage is Done) ==> {
            let n = course.message.confirmed_funding_txes.len() as int;
            &&& n > 0
            &&& k <= 9 * n
            &&& k == 9 * n ==> course.checks[k].stage is HashValue
            &&& k < 9 * n ==> course.checks[k].position == k / 9
            &&& k < 9 * n ==> course.checks[k].stage == awaited(course.answers, k / 9, k % 9)
            &&& k < 9 * n && k % 9 >= 2 ==> course.answers[9 * (k / 9) + 1] is OutputIndex
            &&& k < 9 * n && k % 9 >= 5 ==> course.answers[9 * (k / 9) + 4] is Pubkey
            &&& k < 9 * n && k % 9 >= 8 ==> course.answers[9 * (k / 9) + 7] is Script
        },
    decreases k,
{
    if k > 0 {
        lemma_moment(course, k - 1);
        let answer = course.answers[k - 1];
        assert(course.checks[k - 1].accepts(answer) && course.checks[(k - 1) + 1]
            == course.checks[k - 1].after(answer));
        if (k - 1) % 9 == 8 {
            assert(k % 9 == 0 && k / 9 == (k - 1) / 9 + 1);
        } else {
            assert(k % 9 == (k - 1) % 9 + 1 && k / 9 == (k - 1) / 9);
        }
    }
    if course.checks[k].stage is Done && k < course.answers.len() {
        assert(course.checks[k].accepts(course.answers[k]));
    }
}

/// What is asked at every moment of every course. Nine questions are asked of each funding
/// transaction, in the order of the message: the question number `9 * i + q` is about the `i`-th
/// funding transaction of the message, with its scripts, its nonces and the identifier of its
/// transaction. The output is the one that was found for it, the key is the one that the wallet
/// gave for it, and the contract script is the one that was derived for it. Behind the last
/// funding transaction the hash values of the whole message are asked for, and that is all.
pub proof fn law_every_funding_transaction_is_asked_about<'m>(
    course: FundingCourse<'m>,
    i: int,
    q: int,
)
    requires
        course.well_formed(),
        0 <= i,
        0 <= q < 9,
        9 * i + q <= course.answers.len(),
        course.question(9 * i + q) is Some,
    ensures
        ({
            let n = course.message.confirmed_funding_txes@.len();
            let question = course.question(9 * i + q)->0;
            let entry = course.entry(i);
            let txid = entry.funding_tx@.txid();
            &&& i < n || (i == n && q == 0)
            &&& i == n ==> question == FundingQuestion::CheckHashvaluesAreEqual(course.message)
            &&& i < n && q == 0 ==> question == FundingQuestion::ReadContractLocktime(
                &entry.contract_redeemscript,
            )
            &&& i < n && q == 1 ==> question == FundingQuestion::FindFundingOutputIndex(&entry)
            &&& i < n && q == 2 ==> {
                &&& course.answers[9 * i + 1] matches FundingAnswer::OutputIndex(vout)
                &&& question == (FundingQuestion::GetTxOut { outpoint: OutPoint { txid, vout } })
            }
            &&& i < n && q == 3 ==> question == FundingQuestion::CheckRedeemscriptIsMultisig(
                &entry.multisig_redeemscript,
            )
            &&& i < n && q == 4 ==> question == FundingQuestion::GetTweakablePubkey
            &&& i < n && q == 5 ==> {
                &&& course.answers[9 * i + 4] matches FundingAnswer::Pubkey(pubkey)
                &&& question == (FundingQuestion::CheckMultisigHasPubkey {
                    redeemscript: &entry.multisig_redeemscript,
                    pubkey: &pubkey,
                    nonce: &entry.multisig_nonce,
                })
            }
            &&& i < n && q == 6 ==> {
                &&& course.answers[9 * i + 4] matches FundingAnswer::Pubkey(pubkey)
                &&& question == (FundingQuestion::CheckHashlockHasPubkey {
                    redeemscript: &entry.contract_redeemscript,
                    pubkey: &pubkey,
                    nonce: &entry.hashlock_nonce,
                })
            }
            &&& i < n && q == 7 ==> question == FundingQuestion::RedeemscriptToScriptpubkey(
                &entry.contract_redeemscript,
            )
            &&& i < n && q == 8 ==> {
                &&& course.answers[9 * i + 1] matches FundingAnswer::OutputIndex(vout)
                &&& course.answers[9 * i + 7] matches FundingAnswer::Script(script)
                &&& question == (FundingQuestion::DoesPrevoutMatchCachedContract {
                    prevout: OutPoint { txid, vout },
                    script: &script,
                })
            }
        }),
{
    let k = 9 * i + q;
    assert(k / 9 == i && k % 9 == q);
    lemma_moment(course, k);
}

/// Which answers are taken at every moment of every course: those of the kind that the question
/// asks for, whatever they say, and a failure of whoever was asked, except that deriving a script
/// cannot fail.
pub proof fn law_every_answer_of_the_kind_asked_for_is_taken<'m>(
    course: FundingCourse<'m>,
    k: int,
    answer: FundingAnswer,
)
    requires
        course.well_formed(),
        0 <= k <= course.answers.len(),
        course.question(k) is Some,
    ensures
        course.checks[k].well_formed(),
        course.checks[k].accepts(answer) <==> match course.question(k)->0 {
            FundingQuestion::ReadContractLocktime(_) => answer is Locktime || answer is Failed,
            FundingQuestion::FindFundingOutputIndex(_) => answer is OutputIndex || answer is Failed,
            FundingQuestion::GetTxOut { .. } => answer is TxOut || answer is Failed,
            FundingQuestion::CheckRedeemscriptIsMultisig(_) => answer is Passed || answer is Failed,
            FundingQuestion::GetTweakablePubkey => answer is Pubkey || answer is Failed,
            FundingQuestion::CheckMultisigHasPubkey { .. } => answer is Passed || answer is Failed,
            FundingQuestion::CheckHashlockHasPubkey { .. } => answer is Passed || answer is Failed,
            FundingQuestion::RedeemscriptToScriptpubkey(_) => answer is Script,
            FundingQuestion::DoesPrevoutMatchCachedContract { .. } => answer is PrevoutMatches
                || answer is Failed,
            FundingQuestion::CheckHashvaluesAreEqual(_) => answer is HashValue || answer is Failed,
        },
{
    lemma_moment(course, k);
}

/// What every answer of every course does. A failure ends the check with that failure. A lock time
/// ends it that falls short of the lock time of the next hop and the reaction time together; a
/// missing output ends it, and one with too few confirmations; another cached contract ends it; each
/// with its own message. The hash value ends it, and is what it ends with. No other answer ends it.
pub proof fn law_every_answer_ends_the_check_or_not<'m>(course: FundingCourse<'m>, k: int)
    requires
        course.well_formed(),
        0 <= k < course.answers.len(),
    ensures
        ({
            let ended: Option<Result<Hash160, MakerError>> = match course.answers[k] {
                FundingAnswer::Failed(error) => Some(Err(error)),
                FundingAnswer::Locktime(locktime) => if locktime < course.message.next_locktime
                    + course.min_contract_reaction_time {
                    Some(
                        Err(
                            MakerError::General(
                                "Next hop locktime too close to current hop locktime",
                            ),
                        ),
                    )
                } else {
                    None
                },
                FundingAnswer::TxOut(None) => Some(
                    Err(MakerError::General("funding tx output doesnt exist")),
                ),
                FundingAnswer::TxOut(Some(confirmations)) => if confirmations
                    < course.required_confirms % 0x1_0000_0000 {
                    Some(Err(MakerError::General("funding tx not confirmed to required depth")))
                } else {
                    None
                },
                FundingAnswer::PrevoutMatches(matches) => if matches {
                    None
                } else {
                    Some(
                        Err(
                            MakerError::General(
                                "provided contract does not match sender contract tx, rejecting",
                            ),
                        ),
                    )
                },
                FundingAnswer::HashValue(hash) => Some(Ok(hash)),
                _ => None,
            };
            let next = course.checks[k + 1];
            &&& next.open_question() is None <==> ended is Some
            &&& ended matches Some(outcome) ==> next.stage == FundingStage::Done(outcome)
        }),
{
    lemma_moment(course, k);
    lemma_moment(course, k + 1);
    assert(course.checks[k].accepts(course.answers[k]) && course.checks[k + 1]
        == course.checks[k].after(course.answers[k]));
}

/// A check without a funding transaction has no question and ends with its own message; any other
/// begins with a question.
pub proof fn law_only_an_empty_proof_of_funding_ends_unasked<'m>(
    message: &'m ProofOfFunding,
    min_contract_reaction_time: u16,
    required_confirms: u64,
)
    ensures
        ({
            let check = FundingCheck::start(message, min_contract_reaction_time, required_confirms);
            &&& check.open_question() is None <==> message.confirmed_funding_txes@.len() == 0
            &&& check.open_question() is None ==> check.stage == FundingStage::Done(
                Err(MakerError::General("No funding txs provided by Taker")),
            )
        }),
{
}

/// A world that answers as a function of what it is asked.
pub struct FundingWorld {
    pub contract_locktime: spec_fn(Seq<u8>) -> Result<u16, MakerError>,
    pub output_index: spec_fn(FundingTxInfo) -> Result<u32, MakerError>,
    pub confirmations: spec_fn(OutPoint) -> Result<Option<u32>, MakerError>,
    pub multisig_script: spec_fn(Seq<u8>) -> Result<(), MakerError>,
    pub tweakable_pubkey: Result<PublicKey, MakerError>,
    pub multisig_pubkey: spec_fn(Seq<u8>, PublicKey, nat) -> Result<(), MakerError>,
    pub hashlock_pubkey: spec_fn(Seq<u8>, PublicKey, nat) -> Result<(), MakerError>,
    pub scriptpubkey: spec_fn(Seq<u8>) -> ScriptBuf,
    pub prevout_matches: spec_fn(OutPoint, Seq<u8>) -> Result<bool, MakerError>,
    pub hash_value: spec_fn(ProofOfFunding) -> Result<Hash160, MakerError>,
}

impl FundingWorld {
    /// The answer to a question.
    pub open spec fn answer(self, question: FundingQuestion<'_>) -> FundingAnswer {
        match question {
            FundingQuestion::ReadContractLocktime(script) => match (self.contract_locktime)(
                script@,
            ) {
                Ok(locktime) => FundingAnswer::Locktime(locktime),
                Err(error) => FundingAnswer::Failed(error),
            },
            FundingQuestion::FindFundingOutputIndex(info) => match (self.output_index)(*info) {
                Ok(vout) => FundingAnswer::OutputIndex(vout),
                Err(error) => FundingAnswer::Failed(error),
            },
            FundingQuestion::GetTxOut { outpoint } => match (self.confirmations)(outpoint) {
                Ok(output) => FundingAnswer::TxOut(output),
                Err(error) => FundingAnswer::Failed(error),
            },
            FundingQuestion::CheckRedeemscriptIsMultisig(script) => match (self.multisig_script)(
                script@,
            ) {
                Ok(_) => FundingAnswer::Passed,
                Err(error) => FundingAnswer::Failed(error),
            },
            FundingQuestion::GetTweakablePubkey => match self.tweakable_pubkey {
                Ok(pubkey) => FundingAnswer::Pubkey(pubkey),
                Err(error) => FundingAnswer::Failed(error),
            },
            FundingQuestion::CheckMultisigHasPubkey { redeemscript, pubkey, nonce } => match (
            self.multisig_pubkey)(redeemscript@, *pubkey, nonce@) {
                Ok(_) => FundingAnswer::Passed,
                Err(error) => FundingAnswer::Failed(error),
            },
            FundingQuestion::CheckHashlockHasPubkey { redeemscript, pubkey, nonce } => match (
            self.hashlock_pubkey)(redeemscript@, *pubkey, nonce@) {
                Ok(_) => FundingAnswer::Passed,
                Err(error) => FundingAnswer::Failed(error),
            },
            FundingQuestion::RedeemscriptToScriptpubkey(script) => FundingAnswer::Script(
                (self.scriptpubkey)(script@),
            ),
            FundingQuestion::DoesPrevoutMatchCachedContract { prevout, script } => match (
            self.prevout_matches)(prevout, script@) {
                Ok(matches) => FundingAnswer::PrevoutMatches(matches),
                Err(error) => FundingAnswer::Failed(error),
            },
            FundingQuestion::CheckHashvaluesAreEqual(message) => match (self.hash_value)(*message) {
                Ok(hash) => FundingAnswer::HashValue(hash),
                Err(error) => FundingAnswer::Failed(error),
            },
        }
    }

    /// Whether a funding transaction, on its own, passes every check in this world.
    pub open spec fn passes(
        self,
        entry: FundingTxInfo,
        next_locktime: u16,
        min_contract_reaction_time: u16,
        required_confirms: u64,
    ) -> bool {
        &&& (self.contract_locktime)(entry.contract_redeemscript@) matches Ok(locktime)
        &&& locktime >= next_locktime + min_contract_reaction_time
        &&& (self.output_index)(entry) matches Ok(vout)
        &&& (self.confirmations)(OutPoint { txid: entry.funding_tx@.txid(), vout }) matches Ok(
            Some(confirmations),
        )
        &&& confirmations >= required_confirms % 0x1_0000_0000
        &&& (self.multisig_script)(entry.multisig_redeemscript@) is Ok
        &&& self.tweakable_pubkey matches Ok(pubkey)
        &&& (self.multisig_pubkey)(
            entry.multisig_redeemscript@,
            pubkey,
            entry.multisig_nonce@,
        ) is Ok
        &&& (self.hashlock_pubkey)(
            entry.contract_redeemscript@,
            pubkey,
            entry.hashlock_nonce@,
        ) is Ok
        &&& (self.prevout_matches)(
            OutPoint { txid: entry.funding_tx@.txid(), vout },
            (self.scriptpubkey)(entry.contract_redeemscript@)@,
        ) == Ok::<bool, MakerError>(true)
    }
}

impl FundingWorld {
    /// Whether a course is one in this world: each answer is the one to the question before it,
    /// and no question is left open.
    pub open spec fn answers_all_of(self, course: FundingCourse<'_>) -> bool {
        &&& forall|k: int|
            #![trigger course.answers[k]]
            0 <= k < course.answers.len() ==> course.answers[k] == self.answer(
                course.question(k)->0,
            )
        &&& course.question(course.answers.len() as int) is None
    }

    /// Whether a funding transaction gets past the `q`-th question about it.
    spec fn passes_at(
        self,
        entry: FundingTxInfo,
        next_locktime: u16,
        min_contract_reaction_time: u16,
        required_confirms: u64,
        q: int,
    ) -> bool {
        let vout = (self.output_index)(entry)->Ok_0;
        let outpoint = OutPoint { txid: entry.funding_tx@.txid(), vout };
        let pubkey = self.tweakable_pubkey->Ok_0;
        if q == 0 {
            &&& (self.contract_locktime)(entry.contract_redeemscript@) matches Ok(locktime)
            &&& locktime >= next_locktime + min_contract_reaction_time
        } else if q == 1 {
            (self.output_index)(entry) is Ok
        } else if q == 2 {
            &&& (self.confirmations)(outpoint) matches Ok(Some(confirmations))
            &&& confirmations >= required_confirms % 0x1_0000_0000
        } else if q == 3 {
            (self.multisig_script)(entry.multisig_redeemscript@) is Ok
        } else if q == 4 {
            self.tweakable_pubkey is Ok
        } else if q == 5 {
            (self.multisig_pubkey)(
                entry.multisig_redeemscript@,
                pubkey,
                entry.multisig_nonce@,
            ) is Ok
        } else if q == 6 {
            (self.hashlock_pubkey)(
                entry.contract_redeemscript@,
                pubkey,
                entry.hashlock_nonce@,
            ) is Ok
        } else if q == 7 {
            true
        } else {
            (self.prevout_matches)(
                outpoint,
                (self.scriptpubkey)(entry.contract_redeemscript@)@,
            ) == Ok::<bool, MakerError>(true)
        }
    }
}

/// In a world, the check goes on behind a question exactly if the funding transaction that the
/// question is about gets past it.
proof fn lemma_world_moment<'m>(world: FundingWorld, course: FundingCourse<'m>, i: int, q: int)
    requires
        course.well_formed(),
        world.answers_all_of(course),
        0 <= i < course.message.confirmed_funding_txes.len(),
        0 <= q < 9,
        9 * i + q < course.answers.len(),
    ensures
        course.question(9 * i + q + 1) is Some <==> world.passes_at(
            course.entry(i),
            course.message.next_locktime,
            course.min_contract_reaction_time,
            course.required_confirms,
            q,
        ),
{
    let k = 9 * i + q;
    lemma_world_answer(world, course, i, q);
    law_every_answer_ends_the_check_or_not(course, k);
    if q >= 2 {
        lemma_world_answer(world, course, i, 1);
    }
    if q >= 5 {
        lemma_world_answer(world, course, i, 4);
    }
    if q == 8 {
        lemma_world_answer(world, course, i, 7);
    }
}

/// In a world, the answer at a moment is the one to the question about the funding transaction
/// whose turn it is.
proof fn lemma_world_answer<'m>(world: FundingWorld, course: FundingCourse<'m>, i: int, q: int)
    requires
        course.well_formed(),
        world.answers_all_of(course),
        0 <= i < course.message.confirmed_funding_txes.len(),
        0 <= q < 9,
        9 * i + q < course.answers.len(),
    ensures
        ({
            let entry = course.entry(i);
            let txid = entry.funding_tx@.txid();
            let vout = course.answers[9 * i + 1]->OutputIndex_0;
            let pubkey = course.answers[9 * i + 4]->Pubkey_0;
            course.answers[9 * i + q] == world.answer(
                if q == 0 {
                    FundingQuestion::ReadContractLocktime(&entry.contract_redeemscript)
                } else if q == 1 {
                    FundingQuestion::FindFundingOutputIndex(&entry)
                } else if q == 2 {
                    FundingQuestion::GetTxOut { outpoint: OutPoint { txid, vout } }
                } else if q == 3 {
                    FundingQuestion::CheckRedeemscriptIsMultisig(&entry.multisig_redeemscript)
                } else if q == 4 {
                    FundingQuestion::GetTweakablePubkey
                } else if q == 5 {
                    FundingQuestion::CheckMultisigHasPubkey {
                        redeemscript: &entry.multisig_redeemscript,
                        pubkey: &pubkey,
                        nonce: &entry.multisig_nonce,
                    }
                } else if q == 6 {
                    FundingQuestion::CheckHashlockHasPubkey {
                        redeemscript: &entry.contract_redeemscript,
                        pubkey: &pubkey,
                        nonce: &entry.hashlock_nonce,
                    }
                } else if q == 7 {
                    FundingQuestion::RedeemscriptToScriptpubkey(&entry.contract_redeemscript)
                } else {
                    FundingQuestion::DoesPrevoutMatchCachedContract {
                        prevout: OutPoint { txid, vout },
                        script: &course.answers[9 * i + 7]->Script_0,
                    }
                },
            )
        }),
        q >= 2 ==> course.answers[9 * i + 1] is OutputIndex,
        q >= 5 ==> course.answers[9 * i + 4] is Pubkey,
        q >= 8 ==> course.answers[9 * i + 7] is Script,
{
    let k = 9 * i + q;
    assert(k / 9 == i && k % 9 == q);
    lemma_moment(course, k);
    law_every_funding_transaction_is_asked_about(course, i, q);
    assert(course.answers[k] == world.answer(course.question(k)->0));
}

/// Against a world that answers as a function of what it is asked, a proof of funding is accepted
/// exactly if it has a funding transaction, every one of its funding transactions passes every
/// check on its own, and the hash values are equal; and what it is accepted with is the hash value.
pub proof fn law_accepted_exactly_when_every_funding_transaction_passes<'m>(
    world: FundingWorld,
    course: FundingCourse<'m>,
    value: Hash160,
)
    requires
        course.well_formed(),
        world.answers_all_of(course),
    ensures
        course.checks.last().stage == FundingStage::Done(Ok(value)) <==> {
            &&& course.message.confirmed_funding_txes@.len() > 0
            &&& forall|i: int|
                #![trigger course.message.confirmed_funding_txes@[i]]
                0 <= i < course.message.confirmed_funding_txes@.len() ==> world.passes(
                    course.message.confirmed_funding_txes@[i],
                    course.message.next_locktime,
                    course.min_contract_reaction_time,
                    course.required_confirms,
                )
            &&& (world.hash_value)(*course.message) == Ok::<Hash160, MakerError>(value)
        },
{
    let n = course.message.confirmed_funding_txes.len() as int;
    let k = course.answers.len() - 1;
    if k >= 0 {
        lemma_moment(course, k);
        law_every_answer_ends_the_check_or_not(course, k);
        if k < 9 * n {
            let i = k / 9;
            let q = k % 9;
            assert(k == 9 * i + q && 0 <= i < n);
            lemma_world_moment(world, course, i, q);
            assert(!world.passes(
                course.entry(i),
                course.message.next_locktime,
                course.min_contract_reaction_time,
                course.required_confirms,
            ));
            assert(course.message.confirmed_funding_txes@[i] == course.entry(i));
            assert(course.checks[k].accepts(course.answers[k]));
        } else {
            law_every_funding_transaction_is_asked_about(course, n, 0);
            assert(course.answers[k] == world.answer(course.question(k)->0));
            assert forall|i: int|
                #![trigger course.message.confirmed_funding_txes@[i]]
                0 <= i < n implies world.passes(
                course.message.confirmed_funding_txes@[i],
                course.message.next_locktime,
                course.min_contract_reaction_time,
                course.required_confirms,
            ) by {
                lemma_all_passed(world, course, i);
            }
        }
    }
}

/// A funding transaction behind which the check went on passes on its own.
proof fn lemma_all_passed<'m>(world: FundingWorld, course: FundingCourse<'m>, i: int)
    requires
        course.well_formed(),
        world.answers_all_of(course),
        0 <= i < course.message.confirmed_funding_txes.len(),
        9 * i + 9 < course.answers.len(),
    ensures
        world.passes(
            course.entry(i),
            course.message.next_locktime,
            course.min_contract_reaction_time,
            course.required_confirms,
        ),
{
    assert forall|q: int| 0 <= q < 9 implies #[trigger] world.passes_at(
        course.entry(i),
        course.message.next_locktime,
        course.min_contract_reaction_time,
        course.required_confirms,
        q,
    ) by {
        lemma_moment(course, 9 * i + q + 1);
        lemma_world_moment(world, course, i, q);
    }
    let entry = course.entry(i);
    let locktime = course.message.next_locktime;
    let reaction = course.min_contract_reaction_time;
    let confirms = course.required_confirms;
    assert(world.passes_at(entry, locktime, reaction, confirms, 0));
    assert(world.passes_at(entry, locktime, reaction, confirms, 1));
    assert(world.passes_at(entry, locktime, reaction, confirms, 2));
    assert(world.passes_at(entry, locktime, reaction, confirms, 3));
    assert(world.passes_at(entry, locktime, reaction, confirms, 4));
    assert(world.passes_at(entry, locktime, reaction, confirms, 5));
    assert(world.passes_at(entry, locktime, reaction, confirms, 6));
    assert(world.passes_at(entry, locktime, reaction, confirms, 8));
}

} // verus!
