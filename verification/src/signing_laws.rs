//! What a request for signatures ends with.

use vstd::prelude::*;

use crate::error::MakerError;
use crate::keys::{PublicKey, SecretKey};
use crate::messages::{ContractTxInfoForSender, ReqContractSigsForSender};
use crate::signing::{
    Signature, SigningAnswer, SigningCheck, SigningQuestion, SigningStage, SigningStageView,
    SigningView,
};

verus! {

/// What the questions about one contract transaction are answered with, were they all asked.
pub struct SigningFacts {
    pub prevout_matches: Result<bool, MakerError>,
    pub keypair: Result<(SecretKey, PublicKey), MakerError>,
    pub multisig_pubkey: Result<(), MakerError>,
    pub contract_output: Result<(), MakerError>,
    pub cached: Result<(), MakerError>,
    pub signature: Result<Signature, MakerError>,
}

/// The answer that a check or a task gives.
pub open spec fn passed_or_failed(result: Result<(), MakerError>) -> SigningAnswer {
    match result {
        Ok(_) => SigningAnswer::Passed,
        Err(error) => SigningAnswer::Failed(error),
    }
}

impl SigningFacts {
    /// The fact that answers what is awaited at `stage`.
    pub open spec fn answer(self, stage: SigningStageView) -> SigningAnswer {
        match stage {
            SigningStageView::PrevoutMatch => match self.prevout_matches {
                Ok(matches) => SigningAnswer::PrevoutMatches(matches),
                Err(error) => SigningAnswer::Failed(error),
            },
            SigningStageView::TweakableKeypair => match self.keypair {
                Ok((secret, pubkey)) => SigningAnswer::Keypair { secret, pubkey },
                Err(error) => SigningAnswer::Failed(error),
            },
            SigningStageView::MultisigPubkey { .. } => passed_or_failed(self.multisig_pubkey),
            SigningStageView::ContractOutput { .. } => passed_or_failed(self.contract_output),
            SigningStageView::CacheContract { .. } => passed_or_failed(self.cached),
            _ => match self.signature {
                Ok(signature) => SigningAnswer::Signature(signature),
                Err(error) => SigningAnswer::Failed(error),
            },
        }
    }

    /// Whether the contract transaction meets every rule of the maker, so that it is signed.
    pub open spec fn acceptable(self, info: ContractTxInfoForSender) -> bool {
        &&& crate::signing::moves_one_coin(info.senders_contract_tx)
        &&& self.prevout_matches == Ok::<bool, MakerError>(true)
        &&& self.keypair matches Ok((secret, _))
        &&& crate::keys::tweaked(secret@, info.hashlock_nonce@) != 0
        &&& crate::keys::tweaked(secret@, info.multisig_nonce@) != 0
        &&& self.multisig_pubkey is Ok
        &&& self.contract_output is Ok
        &&& self.cached is Ok
        &&& self.signature is Ok
    }

    /// The first rule that the contract transaction breaks, in the order of the questions.
    pub open spec fn refusal(self, info: ContractTxInfoForSender) -> Option<MakerError> {
        if !crate::signing::moves_one_coin(info.senders_contract_tx) {
            Some(
                MakerError::General("invalid number of inputs or outputs in contract transaction"),
            )
        } else if self.prevout_matches is Err {
            Some(self.prevout_matches->Err_0)
        } else if !self.prevout_matches->Ok_0 {
            Some(MakerError::General("taker attempting multiple contract attack, rejecting"))
        } else if self.keypair is Err {
            Some(self.keypair->Err_0)
        } else if self.multisig_pubkey is Err {
            Some(self.multisig_pubkey->Err_0)
        } else if crate::keys::tweaked(self.keypair->Ok_0.0@, info.hashlock_nonce@) == 0 {
            Some(MakerError::Secp)
        } else if self.contract_output is Err {
            Some(self.contract_output->Err_0)
        } else if self.cached is Err {
            Some(self.cached->Err_0)
        } else if crate::keys::tweaked(self.keypair->Ok_0.0@, info.multisig_nonce@) == 0 {
            Some(MakerError::Secp)
        } else if self.signature is Err {
            Some(self.signature->Err_0)
        } else {
            None
        }
    }
}

impl<'m> SigningView<'m> {
    /// How many questions may still be asked about the current contract transaction.
    pub open spec fn questions_left(self) -> nat {
        match self.stage {
            SigningStageView::PrevoutMatch => 6,
            SigningStageView::TweakableKeypair => 5,
            SigningStageView::MultisigPubkey { .. } => 4,
            SigningStageView::ContractOutput { .. } => 3,
            SigningStageView::CacheContract { .. } => 2,
            SigningStageView::Signature { .. } => 1,
            SigningStageView::Signed => 0,
            SigningStageView::Refused(_) => 0,
        }
    }

    /// What the work ends with when every question is answered from `facts`, which hold one entry
    /// for each contract transaction.
    pub open spec fn outcome(self, facts: Seq<SigningFacts>) -> Result<Seq<Signature>, MakerError>
        decreases self.message.txs_info.len() - self.position, self.questions_left(),
        when self.well_formed()
    {
        match self.stage {
            SigningStageView::Signed => Ok(self.signatures),
            SigningStageView::Refused(error) => Err(error),
            _ => self.after(facts[self.position as int].answer(self.stage)).outcome(facts),
        }
    }
}

/// The verdict on the contract transactions from `position` on, with `signatures` on those before:
/// the first rule broken by the first of them that breaks one, or else every signature in order.
pub open spec fn verdict(
    message: &ReqContractSigsForSender,
    facts: Seq<SigningFacts>,
    position: nat,
    signatures: Seq<Signature>,
) -> Result<Seq<Signature>, MakerError>
    decreases message.txs_info.len() - position,
{
    if position >= message.txs_info.len() {
        Ok(signatures)
    } else {
        match facts[position as int].refusal(message.txs_info@[position as int]) {
            Some(error) => Err(error),
            None => verdict(
                message,
                facts,
                position + 1,
                signatures.push(facts[position as int].signature->Ok_0),
            ),
        }
    }
}

/// The questions about one contract transaction end at the first rule that it breaks, or else at
/// the next transaction with one signature more.
#[verifier::rlimit(50)]
proof fn lemma_current(
    message: &ReqContractSigsForSender,
    facts: Seq<SigningFacts>,
    position: nat,
    signatures: Seq<Signature>,
)
    requires
        position < message.txs_info.len(),
        signatures.len() == position,
    ensures
        SigningView::entering(message, position, signatures).outcome(facts)
            == match facts[position as int].refusal(message.txs_info@[position as int]) {
            Some(error) => Err(error),
            None => SigningView::entering(
                message,
                position + 1,
                signatures.push(facts[position as int].signature->Ok_0),
            ).outcome(facts),
        },
{
    reveal_with_fuel(SigningView::outcome, 7);
}

proof fn lemma_remaining(
    message: &ReqContractSigsForSender,
    facts: Seq<SigningFacts>,
    position: nat,
    signatures: Seq<Signature>,
)
    requires
        position <= message.txs_info.len(),
        signatures.len() == position,
    ensures
        SigningView::entering(message, position, signatures).outcome(facts) == verdict(
            message,
            facts,
            position,
            signatures,
        ),
    decreases message.txs_info.len() - position,
{
    if position < message.txs_info.len() {
        lemma_current(message, facts, position, signatures);
        if facts[position as int].refusal(message.txs_info@[position as int]) is None {
            lemma_remaining(
                message,
                facts,
                position + 1,
                signatures.push(facts[position as int].signature->Ok_0),
            );
        }
    }
}

/// A request for signatures is refused with the first rule broken by the first contract
/// transaction that breaks one; and else every signature is returned, in the order of the request.
pub proof fn law_first_broken_rule_decides(
    message: &ReqContractSigsForSender,
    facts: Seq<SigningFacts>,
)
    ensures
        SigningView::entering(message, 0, Seq::empty()).outcome(facts) == verdict(
            message,
            facts,
            0,
            Seq::empty(),
        ),
{
    lemma_remaining(message, facts, 0, Seq::empty());
}

proof fn lemma_verdict_ok(
    message: &ReqContractSigsForSender,
    facts: Seq<SigningFacts>,
    position: nat,
    signatures: Seq<Signature>,
)
    requires
        position <= message.txs_info.len(),
        signatures.len() == position,
    ensures
        verdict(message, facts, position, signatures) is Ok <==> forall|i: int|
            position <= i < message.txs_info.len() ==> #[trigger] facts[i].acceptable(
                message.txs_info@[i],
            ),
        verdict(message, facts, position, signatures) matches Ok(all) ==> {
            &&& all.len() == message.txs_info.len()
            &&& all.take(position as int) == signatures
            &&& forall|i: int|
                position <= i < all.len() ==> facts[i].signature == Ok::<Signature, MakerError>(
                    #[trigger] all[i],
                )
        },
    decreases message.txs_info.len() - position,
{
    if position < message.txs_info.len() {
        let info = message.txs_info@[position as int];
        let fact = facts[position as int];
        let more = signatures.push(fact.signature->Ok_0);
        lemma_verdict_ok(message, facts, position + 1, more);
        assert(fact.acceptable(info) <==> fact.refusal(info) is None);
        if let Ok(all) = verdict(message, facts, position, signatures) {
            assert(all.take(position as int) =~= all.take(position as int + 1).take(position as int));
            assert(more.take(position as int) =~= signatures);
            assert(all.take(position as int + 1)[position as int] == all[position as int]);
        }
    } else {
        assert(signatures.take(position as int) =~= signatures);
    }
}

/// Signatures are returned exactly when every contract transaction meets every rule of the maker;
/// then there is one for each of them, in the order of the request.
pub proof fn law_signed_exactly_when_all_rules_hold(
    message: &ReqContractSigsForSender,
    facts: Seq<SigningFacts>,
)
    ensures
        ({
            let outcome = SigningView::entering(message, 0, Seq::empty()).outcome(facts);
            &&& outcome is Ok <==> forall|i: int|
                0 <= i < message.txs_info.len() ==> #[trigger] facts[i].acceptable(
                    message.txs_info@[i],
                )
            &&& outcome matches Ok(signatures) ==> {
                &&& signatures.len() == message.txs_info.len()
                &&& forall|i: int|
                    0 <= i < signatures.len() ==> facts[i].signature == Ok::<Signature, MakerError>(
                        #[trigger] signatures[i],
                    )
            }
        }),
{
    law_first_broken_rule_decides(message, facts);
    lemma_verdict_ok(message, facts, 0, Seq::empty());
}

/// A signature is asked for only right after the wallet has remembered the contract for the spent
/// output, and the wallet is told to remember only what passed as the agreed contract output.
pub proof fn law_contract_is_cached_before_it_is_signed(
    work: SigningView<'_>,
    answer: SigningAnswer,
)
    requires
        work.well_formed(),
        work.accepts(answer),
    ensures
        work.after(answer).stage is Signature ==> {
            &&& work.stage is CacheContract
            &&& answer is Passed
            &&& work.after(answer).position == work.position
        },
        work.after(answer).stage is CacheContract ==> {
            &&& work.stage is ContractOutput
            &&& answer is Passed
            &&& work.after(answer).position == work.position
        },
        work.after(answer).signatures.len() > work.signatures.len() ==> work.stage is Signature,
{
}

/// A course of the work on a request: `checks[k]` is the work once the first `k` answers are in.
pub struct SigningCourse<'m> {
    pub message: &'m ReqContractSigsForSender,
    pub min_contract_reaction_time: u16,
    pub checks: Seq<SigningCheck<'m>>,
    pub answers: Seq<SigningAnswer>,
}

impl<'m> SigningCourse<'m> {
    /// The course begins in front of the first contract transaction, each answer is one that the
    /// work before it takes, and each step is the one before it with that answer.
    pub open spec fn well_formed(self) -> bool {
        &&& self.checks.len() == self.answers.len() + 1
        &&& self.checks[0]@ == SigningView::entering(self.message, 0, Seq::empty())
        &&& self.checks[0].min_contract_reaction_time == self.min_contract_reaction_time
        &&& forall|k: int|
            #![trigger self.answers[k]]
            0 <= k < self.answers.len() ==> {
                &&& self.checks[k]@.accepts(self.answers[k])
                &&& self.checks[k + 1]@ == self.checks[k]@.after(self.answers[k])
                &&& self.checks[k + 1].min_contract_reaction_time
                    == self.checks[k].min_contract_reaction_time
            }
    }

    /// The question that is open at a moment.
    pub open spec fn question(self, k: int) -> Option<SigningQuestion<'m>> {
        self.checks[k].open_question()
    }

    /// The entry of the request at a position.
    pub open spec fn entry(self, i: int) -> ContractTxInfoForSender {
        self.message.txs_info@[i]
    }

    /// The scalar of the maker's secret key that was given for an entry.
    pub open spec fn secret(self, i: int) -> nat {
        self.answers[6 * i + 1]->secret@
    }

    /// What is awaited at a moment, by the answers before it: six things of each contract
    /// transaction, one after the other.
    spec fn awaited(self, i: int, q: int) -> SigningStageView {
        let order = crate::keys::curve_order();
        if q == 0 {
            SigningStageView::PrevoutMatch
        } else if q == 1 {
            SigningStageView::TweakableKeypair
        } else if q == 2 {
            SigningStageView::MultisigPubkey {
                secret: self.secret(i),
                pubkey: self.answers[6 * i + 1]->pubkey@,
            }
        } else if q == 3 {
            SigningStageView::ContractOutput {
                secret: self.secret(i),
                hashlock_pubkey: crate::keys::compressed_point(
                    (self.secret(i) + self.entry(i).hashlock_nonce@) % order,
                ),
            }
        } else if q == 4 {
            SigningStageView::CacheContract { secret: self.secret(i) }
        } else {
            SigningStageView::Signature {
                multisig_secret: (self.secret(i) + self.entry(i).multisig_nonce@) % order,
            }
        }
    }
}

/// The work at a moment of its course.
proof fn lemma_moment<'m>(course: SigningCourse<'m>, k: int)
    requires
        course.well_formed(),
        0 <= k <= course.answers.len(),
    ensures
        course.checks[k].message == course.message,
        course.checks[k].min_contract_reaction_time == course.min_contract_reaction_time,
        course.checks[k]@.well_formed(),
        course.checks[k]@.stage is Signed || course.checks[k]@.stage is Refused ==> k
            == course.answers.len(),
        !(course.checks[k]@.stage is Refused) ==> {
            let check = course.checks[k]@;
            let n = course.message.txs_info.len() as int;
            &&& k <= 6 * n
            &&& check.position == k / 6
            &&& check.signatures.len() == k / 6
            &&& forall|j: int|
                0 <= j < k / 6 ==> #[trigger] course.answers[6 * j + 5]
                    == SigningAnswer::Signature(check.signatures[j])
            &&& check.stage is Signed ==> k == 6 * n
            &&& !(check.stage is Signed) ==> check.stage == course.awaited(k / 6, k % 6)
            &&& !(check.stage is Signed) && k % 6 >= 2 ==> course.answers[6 * (k / 6)
                + 1] is Keypair
        },
    decreases k,
{
    if k > 0 {
        lemma_moment(course, k - 1);
        let answer = course.answers[k - 1];
        assert(course.checks[k - 1]@.accepts(answer) && course.checks[(k - 1) + 1]@
            == course.checks[k - 1]@.after(answer) && course.checks[(k - 1)
            + 1].min_contract_reaction_time == course.checks[k - 1].min_contract_reaction_time);
        if (k - 1) % 6 == 5 {
            assert(k % 6 == 0 && k / 6 == (k - 1) / 6 + 1);
            assert(k - 1 == 6 * ((k - 1) / 6) + 5);
        } else {
            assert(k % 6 == (k - 1) % 6 + 1 && k / 6 == (k - 1) / 6);
        }
    }
    if k < course.answers.len() {
        assert(course.checks[k]@.accepts(course.answers[k]));
    }
}

/// What is asked at every moment of every course. Six questions and tasks come for each contract
/// transaction, in the order of the request: the one with the number `6 * i + q` is about the
/// `i`-th entry of the request, with its transaction, its scripts, its keys, its nonces and its
/// value as they stand there. The keys are the pair that the wallet gave for the entry; the
/// hashlock key and the signing key are that pair's secret with the two nonces of the entry added.
pub proof fn law_every_contract_transaction_is_asked_about<'m>(
    course: SigningCourse<'m>,
    i: int,
    q: int,
)
    requires
        course.well_formed(),
        0 <= i,
        0 <= q < 6,
        6 * i + q <= course.answers.len(),
        course.question(6 * i + q) is Some,
    ensures
        i < course.message.txs_info@.len(),
        course.entry(i).senders_contract_tx.input@.len() == 1,
        course.entry(i).senders_contract_tx.output@.len() == 1,
        ({
            let question = course.question(6 * i + q)->0;
            let entry = course.entry(i);
            let tx = entry.senders_contract_tx;
            let order = crate::keys::curve_order();
            &&& q == 0 ==> question == (SigningQuestion::DoesPrevoutMatchCachedContract {
                prevout: &tx.input@[0].previous_output,
                script: &tx.output@[0].script_pubkey,
            })
            &&& q == 1 ==> question == SigningQuestion::GetTweakableKeypair
            &&& q == 2 ==> {
                &&& course.answers[6 * i + 1] matches SigningAnswer::Keypair { pubkey: given, .. }
                &&& question matches SigningQuestion::CheckMultisigHasPubkey {
                    redeemscript,
                    pubkey,
                    nonce,
                }
                &&& *redeemscript == entry.multisig_redeemscript
                &&& pubkey@ == given@
                &&& *nonce == entry.multisig_nonce
            }
            &&& q == 3 ==> {
                &&& course.answers[6 * i + 1] matches SigningAnswer::Keypair { secret, .. }
                &&& question matches SigningQuestion::IsContractOutValid {
                    output,
                    hashlock_pubkey,
                    timelock_pubkey,
                    hashvalue,
                    locktime,
                    min_contract_reaction_time,
                }
                &&& *output == tx.output@[0]
                &&& hashlock_pubkey@ == crate::keys::compressed_point(
                    (secret@ + entry.hashlock_nonce@) % order,
                )
                &&& *timelock_pubkey == entry.timelock_pubkey
                &&& *hashvalue == course.message.hashvalue
                &&& locktime == course.message.locktime
                &&& min_contract_reaction_time == course.min_contract_reaction_time
            }
            &&& q == 4 ==> question == (SigningQuestion::CachePrevoutToContract {
                prevout: &tx.input@[0].previous_output,
                script: &tx.output@[0].script_pubkey,
            })
            &&& q == 5 ==> {
                &&& course.answers[6 * i + 1] matches SigningAnswer::Keypair { secret, .. }
                &&& question matches SigningQuestion::SignContractTx {
                    tx: signed,
                    redeemscript,
                    funding_input_value,
                    key,
                }
                &&& *signed == entry.senders_contract_tx
                &&& *redeemscript == entry.multisig_redeemscript
                &&& funding_input_value == entry.funding_input_value
                &&& key@ == (secret@ + entry.multisig_nonce@) % order
            }
        }),
{
    let k = 6 * i + q;
    assert(k / 6 == i && k % 6 == q);
    lemma_moment(course, k);
    assert(course.checks[k].stage@ == course.checks[k]@.stage);
}

/// Which answers are taken at every moment of every course: those of the kind that the question
/// asks for, whatever they say, and a failure of whoever was asked.
pub proof fn law_every_answer_of_the_kind_asked_for_is_taken<'m>(
    course: SigningCourse<'m>,
    k: int,
    answer: SigningAnswer,
)
    requires
        course.well_formed(),
        0 <= k <= course.answers.len(),
        course.question(k) is Some,
    ensures
        course.checks[k]@.well_formed(),
        course.checks[k]@.accepts(answer) <==> answer is Failed || match course.question(k)->0 {
            SigningQuestion::DoesPrevoutMatchCachedContract { .. } => answer is PrevoutMatches,
            SigningQuestion::GetTweakableKeypair => answer is Keypair,
            SigningQuestion::CheckMultisigHasPubkey { .. } => answer is Passed,
            SigningQuestion::IsContractOutValid { .. } => answer is Passed,
            SigningQuestion::CachePrevoutToContract { .. } => answer is Passed,
            SigningQuestion::SignContractTx { .. } => answer is Signature,
        },
{
    lemma_moment(course, k);
    assert(course.checks[k].stage@ == course.checks[k]@.stage);
}

/// What every answer of every course does. A failure ends the work with that failure. Another
/// contract for the spent output ends it, and so does a nonce that cancels the maker's secret when
/// its key is needed. A signature ends the work if it was the last one to be made, or if the next
/// contract transaction has not exactly one input and one output. No other answer ends it.
pub proof fn law_every_answer_ends_the_work_or_not<'m>(course: SigningCourse<'m>, i: int, q: int)
    requires
        course.well_formed(),
        0 <= i,
        0 <= q < 6,
        6 * i + q < course.answers.len(),
    ensures
        ({
            let n = course.message.txs_info@.len();
            let entry = course.entry(i);
            let following = course.entry(i + 1).senders_contract_tx;
            let order = crate::keys::curve_order();
            let next = course.checks[6 * i + q + 1];
            let refused: Option<MakerError> = match course.answers[6 * i + q] {
                SigningAnswer::Failed(error) => Some(error),
                SigningAnswer::PrevoutMatches(matches) => if matches {
                    None
                } else {
                    Some(
                        MakerError::General("taker attempting multiple contract attack, rejecting"),
                    )
                },
                SigningAnswer::Passed => if q == 2 && (course.secret(i) + entry.hashlock_nonce@)
                    % order == 0 || q == 4 && (course.secret(i) + entry.multisig_nonce@) % order
                    == 0 {
                    Some(MakerError::Secp)
                } else {
                    None
                },
                SigningAnswer::Signature(_) => if i + 1 < n && (following.input@.len() != 1
                    || following.output@.len() != 1) {
                    Some(
                        MakerError::General(
                            "invalid number of inputs or outputs in contract transaction",
                        ),
                    )
                } else {
                    None
                },
                SigningAnswer::Keypair { .. } => None,
            };
            let signed = course.answers[6 * i + q] is Signature && i + 1 == n;
            &&& next.open_question() is None <==> refused is Some || signed
            &&& refused matches Some(error) ==> next.stage == SigningStage::Refused(error)
            &&& signed ==> next.stage == SigningStage::Signed
        }),
{
    let k = 6 * i + q;
    assert(k / 6 == i && k % 6 == q);
    lemma_moment(course, k);
    lemma_moment(course, k + 1);
    assert(course.checks[k]@.accepts(course.answers[k]) && course.checks[k + 1]@
        == course.checks[k]@.after(course.answers[k]));
    assert(course.checks[k + 1].stage@ == course.checks[k + 1]@.stage);
}

/// Before anything is asked, an empty request is signed, and a request whose first contract
/// transaction has not exactly one input and one output is refused; any other begins with a
/// question.
pub proof fn law_which_requests_end_unasked<'m>(course: SigningCourse<'m>)
    requires
        course.well_formed(),
    ensures
        ({
            let n = course.message.txs_info@.len();
            let first = course.entry(0).senders_contract_tx;
            let check = course.checks[0];
            &&& check.signatures@.len() == 0
            &&& n == 0 ==> check.stage == SigningStage::Signed
            &&& n > 0 && (first.input@.len() != 1 || first.output@.len() != 1) ==> check.stage
                == SigningStage::Refused(
                MakerError::General("invalid number of inputs or outputs in contract transaction"),
            )
            &&& n > 0 && first.input@.len() == 1 && first.output@.len() == 1
                ==> check.open_question() is Some
        }),
{
    assert(course.checks[0].stage@ == course.checks[0]@.stage);
    assert(course.checks[0].signatures@ == course.checks[0]@.signatures);
}

/// A request that is granted got one signature for each of its entries, in their order, and each is
/// the answer to a signing task made of exactly the fields of its entry: the contract transaction,
/// the multisig script and the value of the funding input as they stand in the request, and the
/// maker's key for that entry with the multisig nonce of the entry added.
pub proof fn law_each_signature_answers_the_task_of_its_entry<'m>(course: SigningCourse<'m>, i: int)
    requires
        course.well_formed(),
        course.checks.last().stage is Signed,
        0 <= i < course.message.txs_info@.len(),
    ensures
        course.answers.len() == 6 * course.message.txs_info@.len(),
        course.checks.last().signatures@.len() == course.message.txs_info@.len(),
        course.answers[6 * i + 5] == SigningAnswer::Signature(course.checks.last().signatures@[i]),
        ({
            let entry = course.entry(i);
            &&& course.answers[6 * i + 1] matches SigningAnswer::Keypair { secret, .. }
            &&& course.question(6 * i + 5) matches Some(
                SigningQuestion::SignContractTx { tx, redeemscript, funding_input_value, key },
            )
            &&& *tx == entry.senders_contract_tx
            &&& *redeemscript == entry.multisig_redeemscript
            &&& funding_input_value == entry.funding_input_value
            &&& key@ == (secret@ + entry.multisig_nonce@) % crate::keys::curve_order()
        }),
{
    let k = course.answers.len() as int;
    lemma_moment(course, k);
    assert(course.checks[k].stage@ == course.checks[k]@.stage);
    assert(course.checks[k].signatures@ == course.checks[k]@.signatures);
    assert(k / 6 == course.message.txs_info@.len());
    lemma_moment(course, 6 * i + 5);
    assert(course.checks[6 * i + 5].stage@ == course.checks[6 * i + 5]@.stage);
    law_every_contract_transaction_is_asked_about(course, i, 5);
}

} // verus!
