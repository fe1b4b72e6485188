//! Reading the payloads of the messages that a peer sends.

use vstd::prelude::*;
use vstd::slice::slice_subrange;
use vstd::utf8::{decode_utf8, encode_utf8, valid_utf8};

use crate::error::DecodeError;
use crate::message::{
    inventories, Address, AddressModel, Inventory, InventoryModel, MessageModel, NetworkMessage,
    ServiceFlags, VersionMessage, VersionModel,
};
use crate::outside::{push_char, text_from_utf8};
use crate::wire::{
    be16_at, bytes_of, le_at, read_be16, read_u32, read_u64, read_var_bytes, read_varint,
    varint_of,
};

verus! {

/// The text of a command: its bytes other than zero, each taken as the
/// character with that number.
pub open spec fn command_text(raw: Seq<u8>) -> Seq<char> {
    raw.filter_map(|b: u8| if b > 0 { Some(b as char) } else { None })
}

/// The command in the header of a message, if it takes no more than twelve
/// bytes as text.
pub open spec fn command_in(raw: Seq<u8>) -> Result<Seq<char>, DecodeError> {
    if encode_utf8(command_text(raw)).len() > 12 {
        Err(DecodeError::InvalidCommand)
    } else {
        Ok(command_text(raw))
    }
}

/// The network address at `at`.
pub open spec fn address_at(s: Seq<u8>, at: int) -> AddressModel {
    AddressModel {
        services: le_at(s, at, 8) as u64,
        address: Seq::new(8, |k: int| be16_at(s, at + 8 + 2 * k)),
        port: be16_at(s, at + 24),
    }
}

/// The version message in a payload. Before the user agent stand 80 bytes,
/// behind it five; what follows those is not looked at.
pub open spec fn version_in(s: Seq<u8>) -> Result<VersionModel, DecodeError> {
    if s.len() < 80 {
        Err(DecodeError::UnexpectedEof)
    } else {
        match bytes_of(s.skip(80)) {
            Err(e) => Err(e),
            Ok((text, n)) => if !valid_utf8(text) {
                Err(DecodeError::InvalidUtf8)
            } else if s.len() < 80 + n + 5 {
                Err(DecodeError::UnexpectedEof)
            } else {
                Ok(
                    VersionModel {
                        version: le_at(s, 0, 4) as u32,
                        services: le_at(s, 4, 8) as u64,
                        timestamp: le_at(s, 12, 8) as u64 as i64,
                        receiver: address_at(s, 20),
                        sender: address_at(s, 46),
                        nonce: le_at(s, 72, 8) as u64,
                        user_agent: decode_utf8(text),
                        start_height: le_at(s, 80int + n, 4) as u32 as i32,
                        relay: s[80int + n + 4] != 0,
                    },
                )
            },
        }
    }
}

/// The inventory item of the given type.
pub open spec fn inventory_model(inv_type: u32, hash: Seq<u8>) -> InventoryModel {
    if inv_type == 1 {
        InventoryModel::Transaction(hash)
    } else if inv_type == 2 {
        InventoryModel::Block(hash)
    } else if inv_type == 4 {
        InventoryModel::CompactBlock(hash)
    } else if inv_type == 5 {
        InventoryModel::WTx(hash)
    } else if inv_type == 0x4000_0001 {
        InventoryModel::WitnessTransaction(hash)
    } else if inv_type == 0x4000_0002 {
        InventoryModel::WitnessBlock(hash)
    } else {
        InventoryModel::Unknown { inv_type, hash }
    }
}

/// The inventory item at `at`.
pub open spec fn inventory_at(s: Seq<u8>, at: int) -> InventoryModel {
    inventory_model(le_at(s, at, 4) as u32, s.subrange(at + 4, at + 36))
}

/// The list of inventory items at the front of a payload; what follows it is
/// not looked at.
pub open spec fn inventories_in(s: Seq<u8>) -> Result<Seq<InventoryModel>, DecodeError> {
    match varint_of(s) {
        Err(e) => Err(e),
        Ok((n, width)) => if s.len() < width + 36 * n {
            Err(DecodeError::UnexpectedEof)
        } else {
            Ok(Seq::new(n as nat, |k: int| inventory_at(s, width + 36 * k)))
        },
    }
}

/// The number at the front of a payload.
pub open spec fn nonce_in(s: Seq<u8>) -> Result<u64, DecodeError> {
    if s.len() < 8 {
        Err(DecodeError::UnexpectedEof)
    } else {
        Ok(le_at(s, 0, 8) as u64)
    }
}

/// The message with the given command and payload. The messages that play a
/// part in sending a transaction are decoded; any other is passed on as it is.
pub open spec fn message_in(command: Seq<char>, payload: Seq<u8>) -> Result<
    MessageModel,
    DecodeError,
> {
    if command == "version"@ {
        match version_in(payload) {
            Err(e) => Err(e),
            Ok(v) => Ok(MessageModel::Version(v)),
        }
    } else if command == "verack"@ {
        Ok(MessageModel::Verack)
    } else if command == "getdata"@ {
        match inventories_in(payload) {
            Err(e) => Err(e),
            Ok(items) => Ok(MessageModel::GetData(items)),
        }
    } else if command == "ping"@ {
        match nonce_in(payload) {
            Err(e) => Err(e),
            Ok(nonce) => Ok(MessageModel::Ping(nonce)),
        }
    } else if command == "alert"@ {
        match bytes_of(payload) {
            Err(e) => Err(e),
            Ok((data, _)) => Ok(MessageModel::Alert(data)),
        }
    } else if command == "wtxidrelay"@ {
        Ok(MessageModel::WtxidRelay)
    } else if command == "sendaddrv2"@ {
        Ok(MessageModel::SendAddrV2)
    } else {
        Ok(MessageModel::Unknown { command, payload })
    }
}

/// Decodes the command in the header of a message.
pub fn decode_command(raw: &[u8]) -> (r: Result<String, DecodeError>)
    ensures
        match r {
            Ok(text) => command_in(raw@) == Ok::<Seq<char>, DecodeError>(text@),
            Err(e) => command_in(raw@) == Err::<Seq<char>, DecodeError>(e),
        },
{
    let ghost f = |b: u8| -> Option<char> { if b > 0 { Some(b as char) } else { None } };
    let mut text = String::new();
    let mut i: usize = 0;
    assert(raw@.take(0).filter_map(f) =~= text@);
    while i < raw.len()
        invariant
            i <= raw@.len(),
            f == (|b: u8| -> Option<char> { if b > 0 { Some(b as char) } else { None } }),
            text@ == raw@.take(i as int).filter_map(f),
        decreases raw@.len() - i,
    {
        let b: u8 = raw[i];
        assert(raw@.take(i + 1).drop_last() =~= raw@.take(i as int));
        if b > 0 {
            push_char(&mut text, b as char);
        }
        i += 1;
        assert(text@ =~= raw@.take(i as int).filter_map(f));
    }
    assert(raw@.take(i as int) =~= raw@);
    assert(text@ == command_text(raw@));
    if text.as_str().as_bytes().len() > 12 {
        Err(DecodeError::InvalidCommand)
    } else {
        Ok(text)
    }
}

/// Decodes the network address at `at`.
pub fn decode_address(data: &[u8], at: usize) -> (r: Address)
    requires
        at + 26 <= data@.len(),
    ensures
        r@ == address_at(data@, at as int),
{
    assert(data@.len() == data.len());
    let services = ServiceFlags { bits: read_u64(data, at) };
    let mut address: [u16; 8] = [0; 8];
    let mut k: usize = 0;
    while k < 8
        invariant
            k <= 8,
            at + 26 <= data.len(),
            forall|j: int| 0 <= j < k ==> address@[j] == be16_at(data@, at + 8 + 2 * j),
        decreases 8 - k,
    {
        address[k] = read_be16(data, at + 8 + 2 * k);
        k += 1;
    }
    let port: u16 = read_be16(data, at + 24);
    let r = Address { services, address, port };
    assert(r@.address =~= address_at(data@, at as int).address);
    r
}

/// Decodes a version message.
pub fn decode_version(data: &[u8]) -> (r: Result<VersionMessage, DecodeError>)
    ensures
        match r {
            Ok(v) => version_in(data@) == Ok::<VersionModel, DecodeError>(v@),
            Err(e) => version_in(data@) == Err::<VersionModel, DecodeError>(e),
        },
{
    if data.len() < 80 {
        return Err(DecodeError::UnexpectedEof);
    }
    let rest = slice_subrange(data, 80, data.len());
    assert(rest@ =~= data@.skip(80));
    let (text, n): (Vec<u8>, usize) = match read_var_bytes(rest) {
        Err(e) => return Err(e),
        Ok(p) => p,
    };
    let user_agent = match text_from_utf8(text) {
        None => return Err(DecodeError::InvalidUtf8),
        Some(text) => text,
    };
    if rest.len() - n < 5 {
        return Err(DecodeError::UnexpectedEof);
    }
    Ok(
        VersionMessage {
            version: read_u32(data, 0),
            services: ServiceFlags { bits: read_u64(data, 4) },
            timestamp: read_u64(data, 12) as i64,
            receiver: decode_address(data, 20),
            sender: decode_address(data, 46),
            nonce: read_u64(data, 72),
            user_agent,
            start_height: read_u32(data, 80 + n) as i32,
            relay: data[80 + n + 4] != 0,
        },
    )
}

/// The 32 bytes of `data` at `at`.
fn read_hash(data: &[u8], at: usize) -> (r: [u8; 32])
    requires
        at + 32 <= data@.len(),
    ensures
        r@ == data@.subrange(at as int, at + 32),
{
    assert(data@.len() == data.len());
    let mut hash: [u8; 32] = [0; 32];
    let mut k: usize = 0;
    while k < 32
        invariant
            k <= 32,
            at + 32 <= data.len(),
            forall|j: int| 0 <= j < k ==> hash@[j] == data@[at + j],
        decreases 32 - k,
    {
        hash[k] = data[at + k];
        k += 1;
    }
    assert(hash@ =~= data@.subrange(at as int, at + 32));
    hash
}

/// Decodes the inventory item at `at`.
pub fn decode_inventory(data: &[u8], at: usize) -> (r: Inventory)
    requires
        at + 36 <= data@.len(),
    ensures
        r@ == inventory_at(data@, at as int),
{
    assert(data@.len() == data.len());
    let inv_type: u32 = read_u32(data, at);
    let hash: [u8; 32] = read_hash(data, at + 4);
    if inv_type == 1 {
        Inventory::Transaction(hash)
    } else if inv_type == 2 {
        Inventory::Block(hash)
    } else if inv_type == 4 {
        Inventory::CompactBlock(hash)
    } else if inv_type == 5 {
        Inventory::WTx(hash)
    } else if inv_type == 0x4000_0001 {
        Inventory::WitnessTransaction(hash)
    } else if inv_type == 0x4000_0002 {
        Inventory::WitnessBlock(hash)
    } else {
        Inventory::Unknown { inv_type, hash }
    }
}

/// Decodes a list of inventory items.
pub fn decode_inventories(data: &[u8]) -> (r: Result<Vec<Inventory>, DecodeError>)
    ensures
        match r {
            Ok(items) => inventories_in(data@) == Ok::<Seq<InventoryModel>, DecodeError>(
                inventories(items@),
            ),
            Err(e) => inventories_in(data@) == Err::<Seq<InventoryModel>, DecodeError>(e),
        },
{
    let (n, width): (u64, usize) = match read_varint(data) {
        Err(e) => return Err(e),
        Ok(p) => p,
    };
    if (((data.len() - width) / 36) as u64) < n {
        return Err(DecodeError::UnexpectedEof);
    }
    let mut items: Vec<Inventory> = Vec::new();
    let mut at: usize = width;
    let mut k: u64 = 0;
    while k < n
        invariant
            k <= n,
            at == width + 36 * k,
            width + 36 * n <= data.len(),
            items@.len() == k,
            forall|j: int| 0 <= j < k ==> (#[trigger] items@[j])@ == inventory_at(
                data@,
                width + 36 * j,
            ),
        decreases n - k,
    {
        items.push(decode_inventory(data, at));
        at += 36;
        k += 1;
    }
    assert(inventories(items@) =~= Seq::new(
        n as nat,
        |k: int| inventory_at(data@, width + 36 * k),
    ));
    Ok(items)
}

/// Decodes the nonce of a ping.
pub fn decode_nonce(data: &[u8]) -> (r: Result<u64, DecodeError>)
    ensures
        r == nonce_in(data@),
{
    if data.len() < 8 {
        Err(DecodeError::UnexpectedEof)
    } else {
        Ok(read_u64(data, 0))
    }
}

/// Whether a command is the one that is written `text`.
fn is(command: &String, text: &str) -> (r: bool)
    ensures
        r == (command@ == text@),
{
    *command == text.to_string()
}

/// Decodes the message with the given command and payload.
pub fn decode_message(command: String, payload: Vec<u8>) -> (r: Result<
    NetworkMessage,
    DecodeError,
>)
    ensures
        match r {
            Ok(m) => message_in(command@, payload@) == Ok::<MessageModel, DecodeError>(m@),
            Err(e) => message_in(command@, payload@) == Err::<MessageModel, DecodeError>(e),
        },
{
    if is(&command, "version") {
        match decode_version(payload.as_slice()) {
            Err(e) => Err(e),
            Ok(v) => Ok(NetworkMessage::Version(v)),
        }
    } else if is(&command, "verack") {
        Ok(NetworkMessage::Verack)
    } else if is(&command, "getdata") {
        match decode_inventories(payload.as_slice()) {
            Err(e) => Err(e),
            Ok(items) => Ok(NetworkMessage::GetData(items)),
        }
    } else if is(&command, "ping") {
        match decode_nonce(payload.as_slice()) {
            Err(e) => Err(e),
            Ok(nonce) => Ok(NetworkMessage::Ping(nonce)),
        }
    } else if is(&command, "alert") {
        match read_var_bytes(payload.as_slice()) {
            Err(e) => Err(e),
            Ok(p) => Ok(NetworkMessage::Alert(p.0)),
        }
    } else if is(&command, "wtxidrelay") {
        Ok(NetworkMessage::WtxidRelay)
    } else if is(&command, "sendaddrv2") {
        Ok(NetworkMessage::SendAddrV2)
    } else {
        Ok(NetworkMessage::Unknown { command, payload })
    }
}

} // verus!
