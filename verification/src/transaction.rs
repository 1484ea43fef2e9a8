//! The transaction skeleton a PSBT is built around: inputs naming the coins
//! they spend, outputs naming amounts and scripts. The container stores only
//! signing intent, so in a well-formed PSBT every input of the embedded
//! unsigned transaction has an empty scriptSig and an empty witness;
//! extraction fills them in from the finalized records.

use vstd::prelude::*;
use crate::bytes::bytes_eq;
use crate::bytes::clone_bytes;
use crate::bytes::clone_witness;
use crate::bytes::witness_eq;
use crate::bytes::witness_view;

verus! {

/// One spendable coin: an amount and the script that locks it.
#[derive(Debug)]
pub struct TxOut {
    /// Amount in the smallest currency unit.
    pub value: u64,
    /// The locking script of this output.
    pub script: Vec<u8>,
}

/// The mathematical content of a transaction output.
#[verifier::ext_equal]
pub struct TxOutView {
    pub value: u64,
    pub script: Seq<u8>,
}

impl View for TxOut {
    type V = TxOutView;

    open spec fn view(&self) -> TxOutView {
        TxOutView { value: self.value, script: self.script@ }
    }
}

impl TxOut {
    /// Copies the output.
    pub fn clone_out(&self) -> (r: TxOut)
        ensures
            r@ == self@,
    {
        TxOut { value: self.value, script: clone_bytes(&self.script) }
    }
}

/// Tests two transaction outputs for equality of their contents.
pub fn tx_out_eq(a: &TxOut, b: &TxOut) -> (r: bool)
    ensures
        r == (a@ == b@),
{
    a.value == b.value && bytes_eq(&a.script, &b.script)
}

/// One transaction input: the coin it spends, and the unlocking material.
#[derive(Debug)]
pub struct TxIn {
    /// Id of the transaction the spent coin was created by.
    pub previous_txid: Vec<u8>,
    /// Index of the spent coin among that transaction's outputs.
    pub vout: u32,
    /// The unlocking script; empty in an unsigned transaction.
    pub script_sig: Vec<u8>,
    /// The sequence number.
    pub sequence: u32,
    /// The unlocking witness stack; empty in an unsigned transaction.
    pub witness: Vec<Vec<u8>>,
}

/// The mathematical content of a transaction input.
#[verifier::ext_equal]
pub struct TxInView {
    pub previous_txid: Seq<u8>,
    pub vout: u32,
    pub script_sig: Seq<u8>,
    pub sequence: u32,
    pub witness: Seq<Seq<u8>>,
}

impl View for TxIn {
    type V = TxInView;

    open spec fn view(&self) -> TxInView {
        TxInView {
            previous_txid: self.previous_txid@,
            vout: self.vout,
            script_sig: self.script_sig@,
            sequence: self.sequence,
            witness: witness_view(self.witness),
        }
    }
}

impl TxIn {
    /// Copies the input.
    pub fn clone_in(&self) -> (r: TxIn)
        ensures
            r@ == self@,
    {
        let r = TxIn {
            previous_txid: clone_bytes(&self.previous_txid),
            vout: self.vout,
            script_sig: clone_bytes(&self.script_sig),
            sequence: self.sequence,
            witness: clone_witness(&self.witness),
        };
        proof {
            assert(r@ =~= self@);
        }
        r
    }
}

/// Tests two transaction inputs for equality of their contents.
pub fn tx_in_eq(a: &TxIn, b: &TxIn) -> (r: bool)
    ensures
        r == (a@ == b@),
{
    let r = bytes_eq(&a.previous_txid, &b.previous_txid) && a.vout == b.vout
        && bytes_eq(&a.script_sig, &b.script_sig) && a.sequence == b.sequence
        && witness_eq(&a.witness, &b.witness);
    proof {
        if r {
            assert(a@ =~= b@);
        }
    }
    r
}

/// A transaction: version, lock time, inputs and outputs.
#[derive(Debug)]
pub struct Transaction {
    /// Format version of the transaction.
    pub version: u32,
    /// Earliest time or height the transaction may confirm.
    pub lock_time: u32,
    /// The coins spent.
    pub inputs: Vec<TxIn>,
    /// The coins created.
    pub outputs: Vec<TxOut>,
}

/// The mathematical content of a transaction.
#[verifier::ext_equal]
pub struct TransactionView {
    pub version: u32,
    pub lock_time: u32,
    pub inputs: Seq<TxInView>,
    pub outputs: Seq<TxOutView>,
}

impl View for Transaction {
    type V = TransactionView;

    open spec fn view(&self) -> TransactionView {
        TransactionView {
            version: self.version,
            lock_time: self.lock_time,
            inputs: Seq::new(self.inputs@.len(), |i: int| self.inputs@[i]@),
            outputs: Seq::new(self.outputs@.len(), |i: int| self.outputs@[i]@),
        }
    }
}

impl Transaction {
    /// Copies the transaction.
    pub fn clone_tx(&self) -> (r: Transaction)
        ensures
            r@ == self@,
    {
        let mut inputs: Vec<TxIn> = Vec::new();
        let mut i: usize = 0;
        while i < self.inputs.len()
            invariant
                i <= self.inputs@.len(),
                inputs@.len() == i,
                forall|j: int| 0 <= j < i ==> inputs@[j]@ == self.inputs@[j]@,
            decreases self.inputs@.len() - i,
        {
            inputs.push(self.inputs[i].clone_in());
            i = i + 1;
        }
        let mut outputs: Vec<TxOut> = Vec::new();
        let mut o: usize = 0;
        while o < self.outputs.len()
            invariant
                o <= self.outputs@.len(),
                outputs@.len() == o,
                forall|j: int| 0 <= j < o ==> outputs@[j]@ == self.outputs@[j]@,
            decreases self.outputs@.len() - o,
        {
            outputs.push(self.outputs[o].clone_out());
            o = o + 1;
        }
        let r = Transaction { version: self.version, lock_time: self.lock_time, inputs, outputs };
        proof {
            assert(r@.inputs =~= self@.inputs);
            assert(r@.outputs =~= self@.outputs);
            assert(r@ =~= self@);
        }
        r
    }
}

/// Tests two transactions for equality of their contents.
pub fn transaction_eq(a: &Transaction, b: &Transaction) -> (r: bool)
    ensures
        r == (a@ == b@),
{
    if a.version != b.version || a.lock_time != b.lock_time {
        return false;
    }
    if a.inputs.len() != b.inputs.len() {
        proof {
            assert(a@.inputs.len() != b@.inputs.len());
        }
        return false;
    }
    if a.outputs.len() != b.outputs.len() {
        proof {
            assert(a@.outputs.len() != b@.outputs.len());
        }
        return false;
    }
    let mut i: usize = 0;
    while i < a.inputs.len()
        invariant
            i <= a.inputs@.len(),
            a.inputs@.len() == b.inputs@.len(),
            forall|j: int| 0 <= j < i ==> a.inputs@[j]@ == b.inputs@[j]@,
        decreases a.inputs@.len() - i,
    {
        if !tx_in_eq(&a.inputs[i], &b.inputs[i]) {
            proof {
                assert(a@.inputs[i as int] != b@.inputs[i as int]);
            }
            return false;
        }
        i = i + 1;
    }
    let mut o: usize = 0;
    while o < a.outputs.len()
        invariant
            o <= a.outputs@.len(),
            a.outputs@.len() == b.outputs@.len(),
            forall|j: int| 0 <= j < o ==> a.outputs@[j]@ == b.outputs@[j]@,
        decreases a.outputs@.len() - o,
    {
        if !tx_out_eq(&a.outputs[o], &b.outputs[o]) {
            proof {
                assert(a@.outputs[o as int] != b@.outputs[o as int]);
            }
            return false;
        }
        o = o + 1;
    }
    proof {
        assert(a@.inputs =~= b@.inputs);
        assert(a@.outputs =~= b@.outputs);
        assert(a@ =~= b@);
    }
    true
}

/// The contents of an optional transaction.
pub open spec fn opt_tx_view(o: Option<Transaction>) -> Option<TransactionView> {
    match o {
        None => None,
        Some(t) => Some(t@),
    }
}

/// Copies an optional transaction.
pub fn clone_opt_tx(v: &Option<Transaction>) -> (r: Option<Transaction>)
    ensures
        opt_tx_view(r) == opt_tx_view(*v),
{
    match v {
        None => None,
        Some(t) => Some(t.clone_tx()),
    }
}

/// Tests two optional transactions for equality of their contents.
pub fn opt_tx_eq(a: &Option<Transaction>, b: &Option<Transaction>) -> (r: bool)
    ensures
        r == (opt_tx_view(*a) == opt_tx_view(*b)),
{
    match (a, b) {
        (None, None) => true,
        (Some(x), Some(y)) => transaction_eq(x, y),
        _ => false,
    }
}

/// Unions two optional transaction fields; two different skeletons conflict.
pub fn merge_opt_tx(a: &Option<Transaction>, b: &Option<Transaction>) -> (r: Result<
    Option<Transaction>,
    (),
>)
    ensures
        match r {
            Ok(m) => crate::kvmap::opt_compatible(opt_tx_view(*a), opt_tx_view(*b))
                && opt_tx_view(m) == crate::kvmap::opt_merge(opt_tx_view(*a), opt_tx_view(*b)),
            Err(()) => !crate::kvmap::opt_compatible(opt_tx_view(*a), opt_tx_view(*b)),
        },
{
    match (a, b) {
        (Some(x), Some(y)) => {
            if transaction_eq(x, y) {
                Ok(Some(x.clone_tx()))
            } else {
                Err(())
            }
        }
        (Some(x), None) => Ok(Some(x.clone_tx())),
        (None, Some(y)) => Ok(Some(y.clone_tx())),
        (None, None) => Ok(None),
    }
}

/// The contents of an optional transaction output.
pub open spec fn opt_tx_out_view(o: Option<TxOut>) -> Option<TxOutView> {
    match o {
        None => None,
        Some(t) => Some(t@),
    }
}

/// Copies an optional transaction output.
pub fn clone_opt_tx_out(v: &Option<TxOut>) -> (r: Option<TxOut>)
    ensures
        opt_tx_out_view(r) == opt_tx_out_view(*v),
{
    match v {
        None => None,
        Some(t) => Some(t.clone_out()),
    }
}

/// Unions two optional spent-output fields; two different coins conflict.
pub fn merge_opt_tx_out(a: &Option<TxOut>, b: &Option<TxOut>) -> (r: Result<Option<TxOut>, ()>)
    ensures
        match r {
            Ok(m) => crate::kvmap::opt_compatible(opt_tx_out_view(*a), opt_tx_out_view(*b))
                && opt_tx_out_view(m) == crate::kvmap::opt_merge(
                opt_tx_out_view(*a),
                opt_tx_out_view(*b),
            ),
            Err(()) => !crate::kvmap::opt_compatible(opt_tx_out_view(*a), opt_tx_out_view(*b)),
        },
{
    match (a, b) {
        (Some(x), Some(y)) => {
            if tx_out_eq(x, y) {
                Ok(Some(x.clone_out()))
            } else {
                Err(())
            }
        }
        (Some(x), None) => Ok(Some(x.clone_out())),
        (None, Some(y)) => Ok(Some(y.clone_out())),
        (None, None) => Ok(None),
    }
}

} // verus!
