//! Transactions, and how they are written and hashed.

use vstd::prelude::*;

use crate::wire::{le_bytes, lemma_le_bytes, var_bytes, varint_bytes};

verus! {

/// The transaction that is to be sent.
#[derive(Debug, Clone, PartialEq, Eq)]
pub struct Transaction {
    /// The version of the transaction format.
    pub version: i32,
    /// The block height or time before which the transaction is not valid.
    pub lock_time: u32,
    /// The inputs.
    pub input: Vec<TxIn>,
    /// The outputs.
    pub output: Vec<TxOut>,
}

/// An input of a transaction.
#[derive(Debug, Clone, PartialEq, Eq)]
pub struct TxIn {
    /// The output that is spent.
    pub previous_output: OutPoint,
    /// The script that unlocks that output.
    pub script_sig: Vec<u8>,
    /// The sequence number.
    pub sequence: u32,
    /// The witness, element by element; empty where the input has none.
    pub witness: Vec<Vec<u8>>,
}

/// A reference to an output of a transaction.
#[derive(Debug, Clone, Copy, PartialEq, Eq)]
pub struct OutPoint {
    /// The id of the transaction, in the byte order in which it is hashed.
    pub txid: [u8; 32],
    /// The index of the output.
    pub vout: u32,
}

/// An output of a transaction.
#[derive(Debug, Clone, PartialEq, Eq)]
pub struct TxOut {
    /// The value in satoshis.
    pub value: u64,
    /// The script that locks the output.
    pub script_pubkey: Vec<u8>,
}

/// What a [`Transaction`] is.
pub struct TxModel {
    pub version: i32,
    pub lock_time: u32,
    pub input: Seq<TxInModel>,
    pub output: Seq<TxOutModel>,
}

/// What a [`TxIn`] is.
pub struct TxInModel {
    pub txid: Seq<u8>,
    pub vout: u32,
    pub script_sig: Seq<u8>,
    pub sequence: u32,
    pub witness: Seq<Seq<u8>>,
}

/// What a [`TxOut`] is.
pub struct TxOutModel {
    pub value: u64,
    pub script_pubkey: Seq<u8>,
}

impl View for Transaction {
    type V = TxModel;

    open spec fn view(&self) -> TxModel {
        TxModel {
            version: self.version,
            lock_time: self.lock_time,
            input: self.input@.map_values(|i: TxIn| i@),
            output: self.output@.map_values(|o: TxOut| o@),
        }
    }
}

impl View for TxIn {
    type V = TxInModel;

    open spec fn view(&self) -> TxInModel {
        TxInModel {
            txid: self.previous_output.txid@,
            vout: self.previous_output.vout,
            script_sig: self.script_sig@,
            sequence: self.sequence,
            witness: self.witness@.map_values(|e: Vec<u8>| e@),
        }
    }
}

impl View for TxOut {
    type V = TxOutModel;

    open spec fn view(&self) -> TxOutModel {
        TxOutModel { value: self.value, script_pubkey: self.script_pubkey@ }
    }
}

/// An input without its witness.
pub open spec fn txin_bytes(i: TxInModel) -> Seq<u8> {
    i.txid + le_bytes(i.vout as nat, 4) + var_bytes(i.script_sig) + le_bytes(i.sequence as nat, 4)
}

/// An output.
pub open spec fn txout_bytes(o: TxOutModel) -> Seq<u8> {
    le_bytes(o.value as nat, 8) + var_bytes(o.script_pubkey)
}

/// The witness of one input.
pub open spec fn witness_bytes(witness: Seq<Seq<u8>>) -> Seq<u8> {
    varint_bytes(witness.len()) + witness.map_values(|e: Seq<u8>| var_bytes(e)).flatten()
}

/// The inputs without their witnesses, after their number.
pub open spec fn inputs_bytes(input: Seq<TxInModel>) -> Seq<u8> {
    varint_bytes(input.len()) + input.map_values(|i: TxInModel| txin_bytes(i)).flatten()
}

/// The outputs, after their number.
pub open spec fn outputs_bytes(output: Seq<TxOutModel>) -> Seq<u8> {
    varint_bytes(output.len()) + output.map_values(|o: TxOutModel| txout_bytes(o)).flatten()
}

/// Whether a transaction is written with the marker, the flag and the
/// witnesses: where some input has a witness, and where there is no input.
pub open spec fn uses_segwit(t: TxModel) -> bool {
    t.input.len() == 0 || exists|k: int|
        0 <= k < t.input.len() && (#[trigger] t.input[k]).witness.len() > 0
}

/// A transaction without witness data: what its txid is the hash of.
pub open spec fn stripped_bytes(t: TxModel) -> Seq<u8> {
    le_bytes(t.version as u32 as nat, 4) + inputs_bytes(t.input) + outputs_bytes(t.output)
        + le_bytes(t.lock_time as nat, 4)
}

/// A transaction as it goes over the network: what its wtxid is the hash of.
pub open spec fn tx_bytes(t: TxModel) -> Seq<u8> {
    if uses_segwit(t) {
        le_bytes(t.version as u32 as nat, 4) + seq![0u8, 1u8] + inputs_bytes(t.input)
            + outputs_bytes(t.output) + t.input.map_values(
            |i: TxInModel| witness_bytes(i.witness),
        ).flatten() + le_bytes(t.lock_time as nat, 4)
    } else {
        stripped_bytes(t)
    }
}

/// The witnesses of all inputs, one after the other.
pub open spec fn all_witnesses(t: TxModel) -> Seq<u8> {
    t.input.map_values(|i: TxInModel| witness_bytes(i.witness)).flatten()
}

/// A transaction with witnesses is the one without, with the marker and the flag
/// behind the version and the witnesses before the lock time. One with inputs
/// of which none has a witness is the same either way, and so are its two ids.
pub proof fn law_witness_placement(t: TxModel)
    ensures
        ({
            let bare = stripped_bytes(t);
            let n = bare.len();
            let witnessed = t.input.len() == 0 || !(forall|k: int|
                0 <= k < t.input.len() ==> (#[trigger] t.input[k]).witness.len() == 0);
            &&& n >= 8
            &&& bare.take(4) == le_bytes(t.version as u32 as nat, 4)
            &&& bare.skip(n - 4) == le_bytes(t.lock_time as nat, 4)
            &&& tx_bytes(t) == if witnessed {
                bare.take(4) + seq![0u8, 1u8] + bare.subrange(4, n - 4) + all_witnesses(t)
                    + bare.skip(n - 4)
            } else {
                bare
            }
        }),
{
    let bare = stripped_bytes(t);
    let n = bare.len();
    lemma_le_bytes(t.version as u32 as nat, 4);
    lemma_le_bytes(t.lock_time as nat, 4);
    assert(bare.take(4) =~= le_bytes(t.version as u32 as nat, 4));
    assert(bare.skip(n - 4) =~= le_bytes(t.lock_time as nat, 4));
    assert(bare.subrange(4, n - 4) =~= inputs_bytes(t.input) + outputs_bytes(t.output));
    if uses_segwit(t) {
        assert(tx_bytes(t) =~= bare.take(4) + seq![0u8, 1u8] + bare.subrange(4, n - 4)
            + all_witnesses(t) + bare.skip(n - 4));
    }
}

/// A transaction is what its fields say, all of them and as they are.
pub proof fn law_tx_fields(tx: Transaction, i: TxIn, o: TxOut, k: int)
    ensures
        tx@.version == tx.version,
        tx@.lock_time == tx.lock_time,
        tx@.input.len() == tx.input@.len(),
        tx@.output.len() == tx.output@.len(),
        0 <= k < tx.input@.len() ==> tx@.input[k] == tx.input@[k]@,
        0 <= k < tx.output@.len() ==> tx@.output[k] == tx.output@[k]@,
        i@.txid == i.previous_output.txid@,
        i@.vout == i.previous_output.vout,
        i@.script_sig == i.script_sig@,
        i@.sequence == i.sequence,
        i@.witness.len() == i.witness@.len(),
        0 <= k < i.witness@.len() ==> i@.witness[k] == i.witness@[k]@,
        o@ == (TxOutModel { value: o.value, script_pubkey: o.script_pubkey@ }),
{
}

} // verus!
