//! Bitcoin transactions as plain data.

use vstd::prelude::*;

verus! {

/// A script, as its bytes.
pub type ScriptBuf = Vec<u8>;

/// A reference to an output of a transaction. The identifier is in the byte order of the hash.
#[derive(Debug, Clone, Copy)]
pub struct OutPoint {
    pub txid: [u8; 32],
    pub vout: u32,
}

/// An input of a transaction.
#[derive(Debug)]
pub struct TxIn {
    pub previous_output: OutPoint,
    pub script_sig: ScriptBuf,
    pub sequence: u32,
    pub witness: Vec<Vec<u8>>,
}

/// An output of a transaction; the value is in satoshis.
#[derive(Debug)]
pub struct TxOut {
    pub value: u64,
    pub script_pubkey: ScriptBuf,
}

/// A transaction; the lock time is in its consensus encoding.
#[derive(Debug)]
pub struct Transaction {
    pub version: i32,
    pub lock_time: u32,
    pub input: Vec<TxIn>,
    pub output: Vec<TxOut>,
}

/// What an input holds.
#[verifier::ext_equal]
pub struct TxInView {
    pub previous_output: OutPoint,
    pub script_sig: Seq<u8>,
    pub sequence: u32,
    pub witness: Seq<Seq<u8>>,
}

/// What an output holds.
#[verifier::ext_equal]
pub struct TxOutView {
    pub value: u64,
    pub script_pubkey: Seq<u8>,
}

/// What a transaction holds.
#[verifier::ext_equal]
pub struct TransactionView {
    pub version: i32,
    pub lock_time: u32,
    pub input: Seq<TxInView>,
    pub output: Seq<TxOutView>,
}

impl View for TxIn {
    type V = TxInView;

    open spec fn view(&self) -> TxInView {
        TxInView {
            previous_output: self.previous_output,
            script_sig: self.script_sig@,
            sequence: self.sequence,
            witness: self.witness@.map_values(|item: Vec<u8>| item@),
        }
    }
}

impl View for TxOut {
    type V = TxOutView;

    open spec fn view(&self) -> TxOutView {
        TxOutView { value: self.value, script_pubkey: self.script_pubkey@ }
    }
}

impl View for Transaction {
    type V = TransactionView;

    open spec fn view(&self) -> TransactionView {
        TransactionView {
            version: self.version,
            lock_time: self.lock_time,
            input: self.input@.map_values(|i: TxIn| i@),
            output: self.output@.map_values(|o: TxOut| o@),
        }
    }
}

impl TransactionView {
    /// The transaction with every witness emptied.
    pub open spec fn without_witness(self) -> TransactionView {
        TransactionView {
            input: self.input.map_values(
                |i: TxInView| TxInView { witness: Seq::empty(), ..i },
            ),
            ..self
        }
    }

    /// The identifier of the transaction, which the witnesses do not enter.
    pub open spec fn txid(self) -> [u8; 32] {
        witness_free_txid(self.without_witness())
    }
}

/// The identifier that `bitcoin::Transaction::txid` gives to a transaction without witnesses.
pub uninterp spec fn witness_free_txid(tx: TransactionView) -> [u8; 32];

/// `bitcoin::Transaction::txid`: the double hash of the transaction, the witnesses left out. It is
/// a function of everything but the witnesses, which are therefore not handed over; which hash it
/// is stays unsaid.
#[verifier::external_body]
fn hash_of_transaction(tx: &Transaction) -> (id: [u8; 32])
    ensures
        id == witness_free_txid(tx@.without_witness()),
{
    bitcoin::hashes::Hash::to_byte_array(bitcoin::Transaction {
        version: tx.version,
        lock_time: bitcoin::absolute::LockTime::from_consensus(tx.lock_time),
        input: tx.input.iter().map(|i| bitcoin::TxIn {
            previous_output: bitcoin::OutPoint {
                txid: bitcoin::hashes::Hash::from_byte_array(i.previous_output.txid),
                vout: i.previous_output.vout },
            script_sig: i.script_sig.clone().into(),
            sequence: bitcoin::Sequence(i.sequence),
            witness: bitcoin::Witness::new() }).collect(),
        output: tx.output.iter().map(|o| bitcoin::TxOut {
            value: o.value,
            script_pubkey: o.script_pubkey.clone().into() }).collect(),
    }.txid())
}

/// Whether two byte strings are equal.
fn same_bytes(a: &Vec<u8>, b: &Vec<u8>) -> (same: bool)
    ensures
        same == (a@ == b@),
{
    if a.len() != b.len() {
        return false;
    }
    for i in 0..a.len()
        invariant
            a.len() == b.len(),
            forall|j: int| 0 <= j < i ==> a@[j] == b@[j],
    {
        if a[i] != b[i] {
            return false;
        }
    }
    assert(a@ =~= b@);
    true
}

impl OutPoint {
    /// Whether two references name the same output.
    pub fn same_as(&self, other: &OutPoint) -> (same: bool)
        ensures
            same == (*self == *other),
    {
        if self.vout != other.vout {
            return false;
        }
        for i in 0..32usize
            invariant
                forall|j: int| 0 <= j < i ==> self.txid@[j] == other.txid@[j],
        {
            if self.txid[i] != other.txid[i] {
                return false;
            }
        }
        assert(self.txid =~= other.txid);
        true
    }
}

impl TxIn {
    /// Whether two inputs hold the same.
    pub fn same_as(&self, other: &TxIn) -> (same: bool)
        ensures
            same == (self@ == other@),
    {
        if !self.previous_output.same_as(&other.previous_output) || !same_bytes(
            &self.script_sig,
            &other.script_sig,
        ) || self.sequence != other.sequence || self.witness.len() != other.witness.len() {
            assert(self@.witness.len() == self.witness.len());
            assert(other@.witness.len() == other.witness.len());
            return false;
        }
        for i in 0..self.witness.len()
            invariant
                self.witness.len() == other.witness.len(),
                forall|j: int|
                    0 <= j < i ==> #[trigger] self@.witness[j] == other@.witness[j],
        {
            if !same_bytes(&self.witness[i], &other.witness[i]) {
                assert(self@.witness[i as int] != other@.witness[i as int]);
                return false;
            }
        }
        assert(self@.witness =~= other@.witness);
        true
    }
}

impl TxOut {
    /// Whether two outputs hold the same.
    pub fn same_as(&self, other: &TxOut) -> (same: bool)
        ensures
            same == (self@ == other@),
    {
        self.value == other.value && same_bytes(&self.script_pubkey, &other.script_pubkey)
    }
}

impl Transaction {
    /// The identifier of the transaction.
    pub fn txid(&self) -> (id: [u8; 32])
        ensures
            id == self@.txid(),
    {
        hash_of_transaction(self)
    }

    /// Whether two transactions hold the same, witnesses included.
    pub fn same_as(&self, other: &Transaction) -> (same: bool)
        ensures
            same == (self@ == other@),
    {
        assert(self@.input.len() == self.input.len() && other@.input.len() == other.input.len());
        assert(self@.output.len() == self.output.len() && other@.output.len()
            == other.output.len());
        if self.version != other.version || self.lock_time != other.lock_time || self.input.len()
            != other.input.len() || self.output.len() != other.output.len() {
            return false;
        }
        for i in 0..self.input.len()
            invariant
                self.input.len() == other.input.len(),
                forall|j: int| 0 <= j < i ==> #[trigger] self@.input[j] == other@.input[j],
        {
            if !self.input[i].same_as(&other.input[i]) {
                assert(self@.input[i as int] != other@.input[i as int]);
                return false;
            }
        }
        for i in 0..self.output.len()
            invariant
                self.output.len() == other.output.len(),
                forall|j: int| 0 <= j < i ==> #[trigger] self@.output[j] == other@.output[j],
        {
            if !self.output[i].same_as(&other.output[i]) {
                assert(self@.output[i as int] != other@.output[i as int]);
                return false;
            }
        }
        assert(self@.input =~= other@.input);
        assert(self@.output =~= other@.output);
        true
    }
}

/// A copy of a byte string.
pub(crate) fn copy_bytes(bytes: &Vec<u8>) -> (copy: Vec<u8>)
    ensures
        copy@ == bytes@,
{
    let copy = bytes.clone();
    assert(copy@ =~= bytes@);
    copy
}

impl Clone for TxIn {
    fn clone(&self) -> (copy: TxIn)
        ensures
            copy@ == self@,
    {
        let mut witness: Vec<Vec<u8>> = Vec::new();
        for i in 0..self.witness.len()
            invariant
                witness.len() == i,
                forall|j: int| 0 <= j < i ==> (#[trigger] witness@[j])@ == self.witness@[j]@,
        {
            witness.push(copy_bytes(&self.witness[i]));
        }
        let copy = TxIn {
            previous_output: self.previous_output,
            script_sig: copy_bytes(&self.script_sig),
            sequence: self.sequence,
            witness,
        };
        assert(copy@.witness =~= self@.witness);
        copy
    }
}

impl Clone for TxOut {
    fn clone(&self) -> (copy: TxOut)
        ensures
            copy@ == self@,
    {
        TxOut { value: self.value, script_pubkey: copy_bytes(&self.script_pubkey) }
    }
}

impl Clone for Transaction {
    fn clone(&self) -> (copy: Transaction)
        ensures
            copy@ == self@,
    {
        let mut input: Vec<TxIn> = Vec::new();
        for i in 0..self.input.len()
            invariant
                input.len() == i,
                forall|j: int| 0 <= j < i ==> (#[trigger] input@[j])@ == self.input@[j]@,
        {
            input.push(self.input[i].clone());
        }
        let mut output: Vec<TxOut> = Vec::new();
        for i in 0..self.output.len()
            invariant
                output.len() == i,
                forall|j: int| 0 <= j < i ==> (#[trigger] output@[j])@ == self.output@[j]@,
        {
            output.push(self.output[i].clone());
        }
        let copy = Transaction {
            version: self.version,
            lock_time: self.lock_time,
            input,
            output,
        };
        assert(copy@.input =~= self@.input);
        assert(copy@.output =~= self@.output);
        copy
    }
}

/// Two inputs hold the same exactly if they agree in every field.
pub proof fn law_inputs_hold_the_same_field_by_field(a: TxIn, b: TxIn)
    ensures
        a@ == b@ <==> {
            &&& a.previous_output.txid == b.previous_output.txid
            &&& a.previous_output.vout == b.previous_output.vout
            &&& a.script_sig@ == b.script_sig@
            &&& a.sequence == b.sequence
            &&& a.witness@.len() == b.witness@.len()
            &&& forall|i: int|
                0 <= i < a.witness@.len() ==> (#[trigger] a.witness@[i])@ == b.witness@[i]@
        },
{
    assert(a@.witness.len() == a.witness@.len() && b@.witness.len() == b.witness@.len());
    if a@ == b@ {
        assert forall|i: int| 0 <= i < a.witness@.len() implies (#[trigger] a.witness@[i])@
            == b.witness@[i]@ by {
            assert(a@.witness[i] == b@.witness[i]);
        }
    }
    if a.witness@.len() == b.witness@.len() && forall|i: int|
        0 <= i < a.witness@.len() ==> (#[trigger] a.witness@[i])@ == b.witness@[i]@ {
        assert(a@.witness =~= b@.witness);
    }
}

/// Two outputs hold the same exactly if they agree in the value and in the script.
pub proof fn law_outputs_hold_the_same_field_by_field(a: TxOut, b: TxOut)
    ensures
        a@ == b@ <==> a.value == b.value && a.script_pubkey@ == b.script_pubkey@,
{
}

/// Two transactions hold the same exactly if they agree in the version, in the lock time and in
/// every input and every output.
pub proof fn law_transactions_hold_the_same_field_by_field(a: Transaction, b: Transaction)
    ensures
        a@ == b@ <==> {
            &&& a.version == b.version
            &&& a.lock_time == b.lock_time
            &&& a.input@.len() == b.input@.len()
            &&& forall|i: int| 0 <= i < a.input@.len() ==> (#[trigger] a.input@[i])@ == b.input@[i]@
            &&& a.output@.len() == b.output@.len()
            &&& forall|i: int|
                0 <= i < a.output@.len() ==> (#[trigger] a.output@[i])@ == b.output@[i]@
        },
{
    assert(a@.input.len() == a.input@.len() && b@.input.len() == b.input@.len());
    assert(a@.output.len() == a.output@.len() && b@.output.len() == b.output@.len());
    if a@ == b@ {
        assert forall|i: int| 0 <= i < a.input@.len() implies (#[trigger] a.input@[i])@
            == b.input@[i]@ by {
            assert(a@.input[i] == b@.input[i]);
        }
        assert forall|i: int| 0 <= i < a.output@.len() implies (#[trigger] a.output@[i])@
            == b.output@[i]@ by {
            assert(a@.output[i] == b@.output[i]);
        }
    }
    if a.input@.len() == b.input@.len() && forall|i: int|
        0 <= i < a.input@.len() ==> (#[trigger] a.input@[i])@ == b.input@[i]@ {
        assert(a@.input =~= b@.input);
    }
    if a.output@.len() == b.output@.len() && forall|i: int|
        0 <= i < a.output@.len() ==> (#[trigger] a.output@[i])@ == b.output@[i]@ {
        assert(a@.output =~= b@.output);
    }
}

/// The identifier is taken of everything but the witnesses: what is left once these are emptied is
/// the same for two transactions exactly if they agree in all the rest.
pub proof fn law_only_the_witnesses_are_left_out(a: TransactionView, b: TransactionView)
    ensures
        a.without_witness() == b.without_witness() <==> {
            &&& a.version == b.version
            &&& a.lock_time == b.lock_time
            &&& a.output == b.output
            &&& a.input.len() == b.input.len()
            &&& forall|i: int|
                0 <= i < a.input.len() ==> {
                    &&& (#[trigger] a.input[i]).previous_output == b.input[i].previous_output
                    &&& a.input[i].script_sig == b.input[i].script_sig
                    &&& a.input[i].sequence == b.input[i].sequence
                }
        },
        forall|i: int|
            0 <= i < a.input.len() ==> (#[trigger] a.without_witness().input[i]).witness.len() == 0,
{
    let x = a.without_witness();
    let y = b.without_witness();
    assert(x.input.len() == a.input.len() && y.input.len() == b.input.len());
    if x == y {
        assert forall|i: int| 0 <= i < a.input.len() implies {
            &&& (#[trigger] a.input[i]).previous_output == b.input[i].previous_output
            &&& a.input[i].script_sig == b.input[i].script_sig
            &&& a.input[i].sequence == b.input[i].sequence
        } by {
            assert(x.input[i] == y.input[i]);
        }
    }
    if a.input.len() == b.input.len() && forall|i: int|
        0 <= i < a.input.len() ==> {
            &&& (#[trigger] a.input[i]).previous_output == b.input[i].previous_output
            &&& a.input[i].script_sig == b.input[i].script_sig
            &&& a.input[i].sequence == b.input[i].sequence
        } {
        assert(x.input =~= y.input);
    }
}

/// The identifier of every transaction is the one of the transaction that agrees with it in
/// everything but the witnesses and has none.
pub proof fn law_txid_is_the_one_without_witnesses(tx: Transaction, bare: TransactionView)
    requires
        bare.version == tx.version,
        bare.lock_time == tx.lock_time,
        bare.input.len() == tx.input@.len(),
        forall|i: int|
            0 <= i < bare.input.len() ==> {
                &&& (#[trigger] bare.input[i]).previous_output == tx.input@[i].previous_output
                &&& bare.input[i].script_sig == tx.input@[i].script_sig@
                &&& bare.input[i].sequence == tx.input@[i].sequence
                &&& bare.input[i].witness.len() == 0
            },
        bare.output.len() == tx.output@.len(),
        forall|i: int|
            0 <= i < bare.output.len() ==> {
                &&& (#[trigger] bare.output[i]).value == tx.output@[i].value
                &&& bare.output[i].script_pubkey == tx.output@[i].script_pubkey@
            },
    ensures
        tx@.txid() == witness_free_txid(bare),
{
    let emptied = tx@.without_witness();
    assert forall|i: int| 0 <= i < bare.input.len() implies emptied.input[i]
        == #[trigger] bare.input[i] by {
        assert(bare.input[i].witness =~= Seq::<Seq<u8>>::empty());
    }
    assert(emptied.input =~= bare.input);
    assert(emptied.output =~= bare.output);
}

/// A transaction keeps its identifier when only witnesses change: signing does not move it.
pub proof fn law_txid_ignores_witness(a: TransactionView, b: TransactionView)
    requires
        a.without_witness() == b.without_witness(),
    ensures
        a.txid() == b.txid(),
{
}

} // verus!
