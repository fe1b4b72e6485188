//! What this library takes from the `bitcoin` crate and from std, behind
//! contracts that are believed and not proved.

use bitcoin::absolute::LockTime;
use bitcoin::consensus::encode::serialize;
use bitcoin::hashes::sha256d;
use bitcoin::p2p::message::{NetworkMessage, RawNetworkMessage};
use bitcoin::p2p::message_blockdata::Inventory;
use bitcoin::p2p::{Magic, ServiceFlags};
use bitcoin::transaction::Version;
use bitcoin::{Amount, OutPoint, ScriptBuf, Sequence, Witness};
use std::time::{Duration, SystemTime, SystemTimeError};
use vstd::prelude::*;
use vstd::utf8::{decode_utf8, valid_utf8};

use crate::message::{
    message_bytes, version_bytes, InventoryModel, MessageModel, VersionMessage,
};
use crate::transaction::{stripped_bytes, tx_bytes, Transaction, TxIn, TxOut};

verus! {

/// Names the double SHA-256 hash of `data`, as `bitcoin::hashes::sha256d`
/// computes it.
pub uninterp spec fn double_sha256(data: Seq<u8>) -> Seq<u8>;

/// Calls `bitcoin::hashes::sha256d::Hash::hash`. Claims only that the 32 bytes
/// of the hash depend on `data` alone.
#[verifier::external_body]
pub(crate) fn hash_twice(data: &[u8]) -> (r: [u8; 32])
    ensures
        r@ == double_sha256(data@),
{
    bitcoin::hashes::Hash::to_byte_array(<sha256d::Hash as bitcoin::hashes::Hash>::hash(data))
}

/// Calls `bitcoin::Transaction::compute_txid`. Claims that the id is the double
/// hash of the transaction written without marker, flag and witnesses. The
/// bound keeps the offsets inside `bitcoin::Witness` in 32 bits.
#[verifier::external_body]
pub(crate) fn compute_txid(tx: &Transaction) -> (r: [u8; 32])
    requires
        tx_bytes(tx@).len() <= u32::MAX,
    ensures
        r@ == double_sha256(stripped_bytes(tx@)),
{
    let tx = bitcoin::Transaction {
        version: Version(tx.version),
        lock_time: LockTime::from_consensus(tx.lock_time),
        input: tx.input.iter().map(|i: &TxIn| bitcoin::TxIn {
            previous_output: OutPoint::new(bitcoin::hashes::Hash::from_byte_array(i.previous_output.txid), i.previous_output.vout),
            script_sig: ScriptBuf::from_bytes(i.script_sig.clone()),
            sequence: Sequence(i.sequence),
            witness: Witness::from_slice(&i.witness),
        }).collect(),
        output: tx.output.iter().map(|o: &TxOut| bitcoin::TxOut { value: Amount::from_sat(o.value), script_pubkey: ScriptBuf::from_bytes(o.script_pubkey.clone()) }).collect(),
    };
    bitcoin::hashes::Hash::to_byte_array(tx.compute_txid())
}

/// Calls `bitcoin::Transaction::compute_wtxid`. Claims that the id is the
/// double hash of the transaction written as it goes over the network. The
/// bound keeps the offsets inside `bitcoin::Witness` in 32 bits.
#[verifier::external_body]
pub(crate) fn compute_wtxid(tx: &Transaction) -> (r: [u8; 32])
    requires
        tx_bytes(tx@).len() <= u32::MAX,
    ensures
        r@ == double_sha256(tx_bytes(tx@)),
{
    let tx = bitcoin::Transaction {
        version: Version(tx.version),
        lock_time: LockTime::from_consensus(tx.lock_time),
        input: tx.input.iter().map(|i: &TxIn| bitcoin::TxIn {
            previous_output: OutPoint::new(bitcoin::hashes::Hash::from_byte_array(i.previous_output.txid), i.previous_output.vout),
            script_sig: ScriptBuf::from_bytes(i.script_sig.clone()),
            sequence: Sequence(i.sequence),
            witness: Witness::from_slice(&i.witness),
        }).collect(),
        output: tx.output.iter().map(|o: &TxOut| bitcoin::TxOut { value: Amount::from_sat(o.value), script_pubkey: ScriptBuf::from_bytes(o.script_pubkey.clone()) }).collect(),
    };
    bitcoin::hashes::Hash::to_byte_array(tx.compute_wtxid())
}

/// Calls `bitcoin::consensus::encode::serialize` on a
/// `bitcoin::p2p::message::RawNetworkMessage` with a `tx` message. Claims that
/// the bytes are the header and the transaction. `RawNetworkMessage::new`
/// panics on a payload whose length does not fit in 32 bits.
#[verifier::external_body]
pub(crate) fn serialize_tx(magic: [u8; 4], tx: &Transaction) -> (r: Vec<u8>)
    requires
        tx_bytes(tx@).len() <= u32::MAX,
    ensures
        r@ == message_bytes(magic@, MessageModel::Tx(tx@)),
{
    let tx = bitcoin::Transaction {
        version: Version(tx.version),
        lock_time: LockTime::from_consensus(tx.lock_time),
        input: tx.input.iter().map(|i: &TxIn| bitcoin::TxIn {
            previous_output: OutPoint::new(bitcoin::hashes::Hash::from_byte_array(i.previous_output.txid), i.previous_output.vout),
            script_sig: ScriptBuf::from_bytes(i.script_sig.clone()),
            sequence: Sequence(i.sequence),
            witness: Witness::from_slice(&i.witness),
        }).collect(),
        output: tx.output.iter().map(|o: &TxOut| bitcoin::TxOut { value: Amount::from_sat(o.value), script_pubkey: ScriptBuf::from_bytes(o.script_pubkey.clone()) }).collect(),
    };
    serialize(&RawNetworkMessage::new(Magic::from_bytes(magic), NetworkMessage::Tx(tx)))
}

/// Calls `bitcoin::consensus::encode::serialize` on a
/// `bitcoin::p2p::message::RawNetworkMessage` with a `version` message. Claims
/// that the bytes are the header and the fields in their order.
/// `RawNetworkMessage::new` panics on a payload whose length does not fit in 32
/// bits.
#[verifier::external_body]
pub(crate) fn serialize_version(magic: [u8; 4], v: &VersionMessage) -> (r: Vec<u8>)
    requires
        version_bytes(v@).len() <= u32::MAX,
    ensures
        r@ == message_bytes(magic@, MessageModel::Version(v@)),
{
    let v = bitcoin::p2p::message_network::VersionMessage {
        version: v.version,
        services: ServiceFlags::from(v.services.bits),
        timestamp: v.timestamp,
        receiver: bitcoin::p2p::Address { services: ServiceFlags::from(v.receiver.services.bits), address: v.receiver.address, port: v.receiver.port },
        sender: bitcoin::p2p::Address { services: ServiceFlags::from(v.sender.services.bits), address: v.sender.address, port: v.sender.port },
        nonce: v.nonce,
        user_agent: v.user_agent.clone(),
        start_height: v.start_height,
        relay: v.relay,
    };
    serialize(&RawNetworkMessage::new(Magic::from_bytes(magic), NetworkMessage::Version(v)))
}

/// The messages that are sent in reply, other than the transaction itself.
pub enum ShortMessage {
    WtxidRelay,
    SendAddrV2,
    Verack,
    InvTransaction([u8; 32]),
    InvWTx([u8; 32]),
    Pong(u64),
}

impl View for ShortMessage {
    type V = MessageModel;

    open spec fn view(&self) -> MessageModel {
        match *self {
            ShortMessage::WtxidRelay => MessageModel::WtxidRelay,
            ShortMessage::SendAddrV2 => MessageModel::SendAddrV2,
            ShortMessage::Verack => MessageModel::Verack,
            ShortMessage::InvTransaction(txid) => MessageModel::Inv(
                seq![InventoryModel::Transaction(txid@)],
            ),
            ShortMessage::InvWTx(wtxid) => MessageModel::Inv(seq![InventoryModel::WTx(wtxid@)]),
            ShortMessage::Pong(nonce) => MessageModel::Pong(nonce),
        }
    }
}

/// Calls `bitcoin::consensus::encode::serialize` on a
/// `bitcoin::p2p::message::RawNetworkMessage` with one of the short messages.
/// Claims that the bytes are the header and the payload: none, the one
/// inventory item after the count 1, or the nonce.
#[verifier::external_body]
pub(crate) fn serialize_short(magic: [u8; 4], m: ShortMessage) -> (r: Vec<u8>)
    ensures
        r@ == message_bytes(magic@, m@),
{
    let m = match m {
        ShortMessage::WtxidRelay => NetworkMessage::WtxidRelay,
        ShortMessage::SendAddrV2 => NetworkMessage::SendAddrV2,
        ShortMessage::Verack => NetworkMessage::Verack,
        ShortMessage::InvTransaction(txid) => NetworkMessage::Inv(vec![Inventory::Transaction(bitcoin::hashes::Hash::from_byte_array(txid))]),
        ShortMessage::InvWTx(wtxid) => NetworkMessage::Inv(vec![Inventory::WTx(bitcoin::hashes::Hash::from_byte_array(wtxid))]),
        ShortMessage::Pong(nonce) => NetworkMessage::Pong(nonce),
    };
    serialize(&RawNetworkMessage::new(Magic::from_bytes(magic), m))
}

/// Calls `Rng::gen` of the random number generator that
/// `bitcoin::secp256k1::rand::thread_rng` gives. Nothing is claimed of the
/// number.
#[verifier::external_body]
pub(crate) fn random_nonce() -> u64 {
    bitcoin::secp256k1::rand::Rng::gen(&mut bitcoin::secp256k1::rand::thread_rng())
}

/// `std::time::SystemTime`, a reading of the clock.
#[verifier::external_type_specification]
#[verifier::external_body]
pub struct ExSystemTime(SystemTime);

/// `std::time::SystemTimeError`, how far a time lies before another one.
#[verifier::external_type_specification]
#[verifier::external_body]
pub struct ExSystemTimeError(SystemTimeError);

/// Calls `std::time::SystemTime::now`. Nothing is claimed of the time.
#[verifier::external_body]
pub(crate) fn now() -> SystemTime {
    SystemTime::now()
}

/// Calls `std::time::SystemTime::duration_since` with the start of 1970.
/// Nothing is claimed of the result: it is an error where `time` lies before.
#[verifier::external_body]
pub(crate) fn since_epoch(time: SystemTime) -> Result<Duration, SystemTimeError> {
    time.duration_since(std::time::UNIX_EPOCH)
}

/// Calls `std::time::Duration::as_secs`. Nothing is claimed of the number of
/// seconds: what a `Duration` holds cannot be spoken of here.
#[verifier::external_body]
pub(crate) fn whole_seconds(duration: Duration) -> u64 {
    duration.as_secs()
}

/// Calls `String::from_utf8`. Claims that it gives the text that the bytes
/// encode, and that it gives one where they are valid UTF-8 and nowhere else.
#[verifier::external_body]
pub(crate) fn text_from_utf8(bytes: Vec<u8>) -> (r: Option<String>)
    ensures
        r is Some <==> valid_utf8(bytes@),
        r matches Some(text) ==> text@ == decode_utf8(bytes@),
{
    String::from_utf8(bytes).ok()
}

/// Calls `String::push`. Claims that it appends the character.
#[verifier::external_body]
pub(crate) fn push_char(text: &mut String, c: char)
    ensures
        final(text)@ == old(text)@.push(c),
{
    text.push(c)
}

} // verus!
