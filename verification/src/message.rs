//! The messages of the peer-to-peer protocol, and how they are written.

use vstd::prelude::*;
use vstd::utf8::encode_utf8;

use crate::outside::double_sha256;
use crate::transaction::{tx_bytes, Transaction, TxModel};
use crate::wire::{be16_bytes, le_bytes, var_bytes, varint_bytes};

verus! {

/// The protocol version that the version message announces.
pub const PROTOCOL_VERSION: u32 = 70001;

/// The services that a node offers, one bit each.
#[derive(Debug, Clone, Copy, PartialEq, Eq)]
pub struct ServiceFlags {
    /// The bits.
    pub bits: u64,
}

impl ServiceFlags {
    /// The flag of a node that can be asked for witness data.
    pub fn witness() -> (r: ServiceFlags)
        ensures
            r.bits == WITNESS,
    {
        ServiceFlags { bits: WITNESS }
    }

    /// Whether all of `flags` are set here.
    pub fn has(self, flags: ServiceFlags) -> (r: bool)
        ensures
            r == has_flags(self.bits, flags.bits),
    {
        let (bits, wanted): (u64, u64) = (self.bits, flags.bits);
        assert((bits | wanted == bits) == (bits & wanted == wanted)) by (bit_vector);
        bits | wanted == bits
    }
}

/// The bit of a node that can be asked for witness data.
pub const WITNESS: u64 = 8;

/// Whether every bit of `wanted` is set in `bits`.
pub open spec fn has_flags(bits: u64, wanted: u64) -> bool {
    bits & wanted == wanted
}

/// The network address of a node.
#[derive(Debug, Clone, Copy, PartialEq, Eq)]
pub struct Address {
    /// The services of the node at this address.
    pub services: ServiceFlags,
    /// The IPv6 address, or the IPv4 address mapped to one.
    pub address: [u16; 8],
    /// The port.
    pub port: u16,
}

/// The first message that each side sends: what it is and what it can do.
#[derive(Debug, Clone, PartialEq, Eq)]
pub struct VersionMessage {
    /// The protocol version.
    pub version: u32,
    /// The services of the sender.
    pub services: ServiceFlags,
    /// The time at which the message was made, in seconds since 1970.
    pub timestamp: i64,
    /// The address of the node that gets the message.
    pub receiver: Address,
    /// The address of the node that sends the message.
    pub sender: Address,
    /// A random number, by which a node finds that it connected to itself.
    pub nonce: u64,
    /// The software of the sender.
    pub user_agent: String,
    /// The height of the chain that the sender knows.
    pub start_height: i32,
    /// Whether the receiver should announce transactions to the sender.
    pub relay: bool,
}

/// An item that a node announces or asks for. Hashes are in the byte order in
/// which they are computed.
#[derive(Debug, Clone, Copy, PartialEq, Eq)]
pub enum Inventory {
    /// A transaction by its txid.
    Transaction([u8; 32]),
    /// A block.
    Block([u8; 32]),
    /// A compact block.
    CompactBlock([u8; 32]),
    /// A transaction by its wtxid.
    WTx([u8; 32]),
    /// A transaction with its witness, by its txid.
    WitnessTransaction([u8; 32]),
    /// A block with its witnesses.
    WitnessBlock([u8; 32]),
    /// Any other type.
    Unknown {
        /// The type.
        inv_type: u32,
        /// The hash.
        hash: [u8; 32],
    },
}

/// A message of the protocol.
#[derive(Debug, Clone, PartialEq, Eq)]
pub enum NetworkMessage {
    /// `version`
    Version(VersionMessage),
    /// `verack`
    Verack,
    /// `inv`
    Inv(Vec<Inventory>),
    /// `getdata`
    GetData(Vec<Inventory>),
    /// `tx`
    Tx(Transaction),
    /// `ping`
    Ping(u64),
    /// `pong`
    Pong(u64),
    /// `alert`
    Alert(Vec<u8>),
    /// `wtxidrelay`
    WtxidRelay,
    /// `sendaddrv2`
    SendAddrV2,
    /// A message that is passed on undecoded.
    Unknown {
        /// The command in the header.
        command: String,
        /// The payload.
        payload: Vec<u8>,
    },
}

/// A message together with the network it is meant for.
#[derive(Debug, Clone, PartialEq, Eq)]
pub struct RawNetworkMessage {
    /// The bytes that tell the network.
    pub magic: [u8; 4],
    /// The message.
    pub payload: NetworkMessage,
}

/// What an [`Address`] is.
pub struct AddressModel {
    pub services: u64,
    pub address: Seq<u16>,
    pub port: u16,
}

/// What a [`VersionMessage`] is.
pub struct VersionModel {
    pub version: u32,
    pub services: u64,
    pub timestamp: i64,
    pub receiver: AddressModel,
    pub sender: AddressModel,
    pub nonce: u64,
    pub user_agent: Seq<char>,
    pub start_height: i32,
    pub relay: bool,
}

/// What an [`Inventory`] is.
pub enum InventoryModel {
    Transaction(Seq<u8>),
    Block(Seq<u8>),
    CompactBlock(Seq<u8>),
    WTx(Seq<u8>),
    WitnessTransaction(Seq<u8>),
    WitnessBlock(Seq<u8>),
    Unknown { inv_type: u32, hash: Seq<u8> },
}

/// What a [`NetworkMessage`] is.
pub enum MessageModel {
    Version(VersionModel),
    Verack,
    Inv(Seq<InventoryModel>),
    GetData(Seq<InventoryModel>),
    Tx(TxModel),
    Ping(u64),
    Pong(u64),
    Alert(Seq<u8>),
    WtxidRelay,
    SendAddrV2,
    Unknown { command: Seq<char>, payload: Seq<u8> },
}

impl View for Address {
    type V = AddressModel;

    open spec fn view(&self) -> AddressModel {
        AddressModel { services: self.services.bits, address: self.address@, port: self.port }
    }
}

impl View for VersionMessage {
    type V = VersionModel;

    open spec fn view(&self) -> VersionModel {
        VersionModel {
            version: self.version,
            services: self.services.bits,
            timestamp: self.timestamp,
            receiver: self.receiver@,
            sender: self.sender@,
            nonce: self.nonce,
            user_agent: self.user_agent@,
            start_height: self.start_height,
            relay: self.relay,
        }
    }
}

impl View for Inventory {
    type V = InventoryModel;

    open spec fn view(&self) -> InventoryModel {
        match *self {
            Inventory::Transaction(h) => InventoryModel::Transaction(h@),
            Inventory::Block(h) => InventoryModel::Block(h@),
            Inventory::CompactBlock(h) => InventoryModel::CompactBlock(h@),
            Inventory::WTx(h) => InventoryModel::WTx(h@),
            Inventory::WitnessTransaction(h) => InventoryModel::WitnessTransaction(h@),
            Inventory::WitnessBlock(h) => InventoryModel::WitnessBlock(h@),
            Inventory::Unknown { inv_type, hash } => InventoryModel::Unknown {
                inv_type,
                hash: hash@,
            },
        }
    }
}

/// What a list of inventory items is.
pub open spec fn inventories(items: Seq<Inventory>) -> Seq<InventoryModel> {
    items.map_values(|i: Inventory| i@)
}

impl View for NetworkMessage {
    type V = MessageModel;

    open spec fn view(&self) -> MessageModel {
        match *self {
            NetworkMessage::Version(v) => MessageModel::Version(v@),
            NetworkMessage::Verack => MessageModel::Verack,
            NetworkMessage::Inv(items) => MessageModel::Inv(inventories(items@)),
            NetworkMessage::GetData(items) => MessageModel::GetData(inventories(items@)),
            NetworkMessage::Tx(tx) => MessageModel::Tx(tx@),
            NetworkMessage::Ping(nonce) => MessageModel::Ping(nonce),
            NetworkMessage::Pong(nonce) => MessageModel::Pong(nonce),
            NetworkMessage::Alert(data) => MessageModel::Alert(data@),
            NetworkMessage::WtxidRelay => MessageModel::WtxidRelay,
            NetworkMessage::SendAddrV2 => MessageModel::SendAddrV2,
            NetworkMessage::Unknown { command, payload } => MessageModel::Unknown {
                command: command@,
                payload: payload@,
            },
        }
    }
}

/// Words in big-endian order.
pub open spec fn words_bytes(words: Seq<u16>) -> Seq<u8> {
    words.map_values(|w: u16| be16_bytes(w)).flatten()
}

/// A network address.
pub open spec fn address_bytes(a: AddressModel) -> Seq<u8> {
    le_bytes(a.services as nat, 8) + words_bytes(a.address) + be16_bytes(a.port)
}

/// The payload of a version message.
pub open spec fn version_bytes(v: VersionModel) -> Seq<u8> {
    le_bytes(v.version as nat, 4) + le_bytes(v.services as nat, 8) + le_bytes(
        v.timestamp as u64 as nat,
        8,
    ) + address_bytes(v.receiver) + address_bytes(v.sender) + le_bytes(v.nonce as nat, 8)
        + var_bytes(encode_utf8(v.user_agent)) + le_bytes(v.start_height as u32 as nat, 4) + seq![
        if v.relay {
            1u8
        } else {
            0u8
        },
    ]
}

/// The number that stands for the type of an inventory item.
pub open spec fn inv_type(i: InventoryModel) -> u32 {
    match i {
        InventoryModel::Transaction(_) => 1,
        InventoryModel::Block(_) => 2,
        InventoryModel::CompactBlock(_) => 4,
        InventoryModel::WTx(_) => 5,
        InventoryModel::WitnessTransaction(_) => 0x4000_0001,
        InventoryModel::WitnessBlock(_) => 0x4000_0002,
        InventoryModel::Unknown { inv_type, .. } => inv_type,
    }
}

/// The hash of an inventory item.
pub open spec fn inv_hash(i: InventoryModel) -> Seq<u8> {
    match i {
        InventoryModel::Transaction(h) => h,
        InventoryModel::Block(h) => h,
        InventoryModel::CompactBlock(h) => h,
        InventoryModel::WTx(h) => h,
        InventoryModel::WitnessTransaction(h) => h,
        InventoryModel::WitnessBlock(h) => h,
        InventoryModel::Unknown { hash, .. } => hash,
    }
}

/// An inventory item.
pub open spec fn inventory_bytes(i: InventoryModel) -> Seq<u8> {
    le_bytes(inv_type(i) as nat, 4) + inv_hash(i)
}

/// A list of inventory items, after their number.
pub open spec fn inventories_bytes(items: Seq<InventoryModel>) -> Seq<u8> {
    varint_bytes(items.len()) + items.map_values(|i: InventoryModel| inventory_bytes(i)).flatten()
}

/// The command in the header of a message.
pub open spec fn command_of(m: MessageModel) -> Seq<char> {
    match m {
        MessageModel::Version(_) => "version"@,
        MessageModel::Verack => "verack"@,
        MessageModel::Inv(_) => "inv"@,
        MessageModel::GetData(_) => "getdata"@,
        MessageModel::Tx(_) => "tx"@,
        MessageModel::Ping(_) => "ping"@,
        MessageModel::Pong(_) => "pong"@,
        MessageModel::Alert(_) => "alert"@,
        MessageModel::WtxidRelay => "wtxidrelay"@,
        MessageModel::SendAddrV2 => "sendaddrv2"@,
        MessageModel::Unknown { command, .. } => command,
    }
}

/// The payload of a message.
pub open spec fn payload_of(m: MessageModel) -> Seq<u8> {
    match m {
        MessageModel::Version(v) => version_bytes(v),
        MessageModel::Inv(items) => inventories_bytes(items),
        MessageModel::GetData(items) => inventories_bytes(items),
        MessageModel::Tx(tx) => tx_bytes(tx),
        MessageModel::Ping(nonce) => le_bytes(nonce as nat, 8),
        MessageModel::Pong(nonce) => le_bytes(nonce as nat, 8),
        MessageModel::Alert(data) => var_bytes(data),
        MessageModel::Unknown { payload, .. } => payload,
        MessageModel::Verack | MessageModel::WtxidRelay | MessageModel::SendAddrV2 => Seq::empty(),
    }
}

/// The checksum of a payload: the first four bytes of its double hash.
pub open spec fn checksum_of(payload: Seq<u8>) -> Seq<u8> {
    let hash = double_sha256(payload);
    seq![hash[0], hash[1], hash[2], hash[3]]
}

/// A command, filled up with zeros to twelve bytes.
pub open spec fn command_bytes(command: Seq<char>) -> Seq<u8> {
    let text = encode_utf8(command);
    text + Seq::new((12 - text.len()) as nat, |i: int| 0u8)
}

/// A payload behind its header: the network, the command, the length and the
/// checksum.
pub open spec fn frame(magic: Seq<u8>, command: Seq<char>, payload: Seq<u8>) -> Seq<u8> {
    magic + command_bytes(command) + le_bytes(payload.len(), 4) + checksum_of(payload) + payload
}

/// A message as it goes over the network.
pub open spec fn message_bytes(magic: Seq<u8>, m: MessageModel) -> Seq<u8> {
    frame(magic, command_of(m), payload_of(m))
}

/// A message is what its fields say, all of them and as they are.
pub proof fn law_fields(v: VersionMessage, a: Address, items: Seq<Inventory>, k: int)
    ensures
        v@ == (VersionModel {
            version: v.version,
            services: v.services.bits,
            timestamp: v.timestamp,
            receiver: v.receiver@,
            sender: v.sender@,
            nonce: v.nonce,
            user_agent: v.user_agent@,
            start_height: v.start_height,
            relay: v.relay,
        }),
        a@ == (AddressModel { services: a.services.bits, address: a.address@, port: a.port }),
        inventories(items).len() == items.len(),
        0 <= k < items.len() ==> inventories(items)[k] == items[k]@,
{
}

/// An item is its kind and its hash.
pub proof fn law_item_kinds(hash: [u8; 32], inv_type: u32)
    ensures
        Inventory::Transaction(hash)@ == InventoryModel::Transaction(hash@),
        Inventory::Block(hash)@ == InventoryModel::Block(hash@),
        Inventory::CompactBlock(hash)@ == InventoryModel::CompactBlock(hash@),
        Inventory::WTx(hash)@ == InventoryModel::WTx(hash@),
        Inventory::WitnessTransaction(hash)@ == InventoryModel::WitnessTransaction(hash@),
        Inventory::WitnessBlock(hash)@ == InventoryModel::WitnessBlock(hash@),
        (Inventory::Unknown { inv_type, hash })@ == (InventoryModel::Unknown {
            inv_type,
            hash: hash@,
        }),
{
}

/// A message is its kind and what it holds.
pub proof fn law_message_kinds(
    v: VersionMessage,
    items: Vec<Inventory>,
    tx: Transaction,
    nonce: u64,
    data: Vec<u8>,
    command: String,
)
    ensures
        NetworkMessage::Version(v)@ == MessageModel::Version(v@),
        NetworkMessage::Verack@ == MessageModel::Verack,
        NetworkMessage::Inv(items)@ == MessageModel::Inv(inventories(items@)),
        NetworkMessage::GetData(items)@ == MessageModel::GetData(inventories(items@)),
        NetworkMessage::Tx(tx)@ == MessageModel::Tx(tx@),
        NetworkMessage::Ping(nonce)@ == MessageModel::Ping(nonce),
        NetworkMessage::Pong(nonce)@ == MessageModel::Pong(nonce),
        NetworkMessage::Alert(data)@ == MessageModel::Alert(data@),
        NetworkMessage::WtxidRelay@ == MessageModel::WtxidRelay,
        NetworkMessage::SendAddrV2@ == MessageModel::SendAddrV2,
        (NetworkMessage::Unknown { command, payload: data })@ == (MessageModel::Unknown {
            command: command@,
            payload: data@,
        }),
{
}

} // verus!
