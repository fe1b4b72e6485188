use bitcoin::consensus::encode::serialize;
use bitcoin::hashes::Hash as BitcoinHash;
use bitcoin::p2p::message::{NetworkMessage as OutsideMessage, RawNetworkMessage};
use bitcoin::p2p::message_blockdata::Inventory as OutsideInventory;
use bitcoin::p2p::Magic;
use bitcoin_send_tx_p2p::decode::{
    decode_command, decode_inventories, decode_message, decode_nonce, decode_version,
};
use bitcoin_send_tx_p2p::error::DecodeError;
use bitcoin_send_tx_p2p::message::{Address, Inventory, NetworkMessage, ServiceFlags};
use bitcoin_send_tx_p2p::reader::{decode_first, MessageReader, MAX_MSG_SIZE};
use bitcoin_send_tx_p2p::wire::{read_be16, read_u16, read_u32, read_u64, read_var_bytes, read_varint};

fn frame(message: OutsideMessage) -> Vec<u8> {
    serialize(&RawNetworkMessage::new(Magic::REGTEST, message))
}

fn version() -> bitcoin::p2p::message_network::VersionMessage {
    let services = bitcoin::p2p::ServiceFlags::WITNESS | bitcoin::p2p::ServiceFlags::NETWORK;
    let mut message = bitcoin::p2p::message_network::VersionMessage::new(
        services,
        -2,
        bitcoin::p2p::Address::new(&"[2001:db8::17]:8333".parse().unwrap(), services),
        bitcoin::p2p::Address::new(&"1.2.3.4:80".parse().unwrap(), services),
        0xFFEE_DDCC_BBAA_9988,
        "/Größe:1/".to_string(),
        -7,
    );
    message.relay = true;
    message
}

/// The frame with the given parts, with the right checksum.
fn raw_frame(command: &[u8; 12], payload: &[u8]) -> Vec<u8> {
    let mut bytes = vec![1, 2, 3, 4];
    bytes.extend_from_slice(command);
    bytes.extend_from_slice(&(payload.len() as u32).to_le_bytes());
    let hash = bitcoin::hashes::sha256d::Hash::hash(payload).to_byte_array();
    bytes.extend_from_slice(&hash[..4]);
    bytes.extend_from_slice(payload);
    bytes
}

fn read_one(bytes: &[u8]) -> NetworkMessage {
    let (message, length) = decode_first(bytes).unwrap().unwrap();
    assert_eq!(length, bytes.len());
    message.payload
}

#[test]
fn integers_are_read_in_their_byte_order() {
    let data = [0xAA, 1, 2, 3, 4, 5, 6, 7, 8];
    assert_eq!(read_u16(&data, 1), 0x0201);
    assert_eq!(read_be16(&data, 1), 0x0102);
    assert_eq!(read_u32(&data, 1), 0x0403_0201);
    assert_eq!(read_u64(&data, 1), 0x0807_0605_0403_0201);
}

#[test]
fn variable_length_integers() {
    for value in [0, 0xFC, 0xFD, 0xFFFF, 0x1_0000, 0xFFFF_FFFF, 0x1_0000_0000, u64::MAX] {
        let mut bytes = serialize(&bitcoin::VarInt(value));
        let length = bytes.len();
        bytes.push(9);
        assert_eq!(read_varint(&bytes), Ok((value, length)));
        assert_eq!(
            read_varint(&bytes[..length - 1]),
            Err(DecodeError::UnexpectedEof)
        );
    }
    let long = [
        vec![0xFD, 0xFC, 0],
        vec![0xFE, 0xFF, 0xFF, 0, 0],
        vec![0xFF, 0xFF, 0xFF, 0xFF, 0xFF, 0, 0, 0, 0],
    ];
    for bytes in long {
        assert_eq!(read_varint(&bytes), Err(DecodeError::NonMinimalVarInt));
    }
}

#[test]
fn byte_strings() {
    assert_eq!(read_var_bytes(&[2, 7, 8, 9]), Ok((vec![7, 8], 3)));
    assert_eq!(read_var_bytes(&[0]), Ok((Vec::new(), 1)));
    assert_eq!(read_var_bytes(&[3, 7, 8]), Err(DecodeError::UnexpectedEof));
    assert_eq!(
        read_var_bytes(&[0xFF, 255, 255, 255, 255, 255, 255, 255, 255]),
        Err(DecodeError::UnexpectedEof)
    );
    assert_eq!(
        read_var_bytes(&[0xFD, 1, 0, 5]),
        Err(DecodeError::NonMinimalVarInt)
    );
}

#[test]
fn a_version_message_comes_back() {
    let outside = version();
    let bytes = serialize(&outside);
    let ours = decode_version(&bytes).unwrap();
    assert_eq!(ours.version, 70001);
    assert_eq!(ours.services, ServiceFlags { bits: 9 });
    assert_eq!(ours.timestamp, -2);
    assert_eq!(
        ours.receiver,
        Address {
            services: ServiceFlags { bits: 9 },
            address: [0x2001, 0xDB8, 0, 0, 0, 0, 0, 0x17],
            port: 8333
        }
    );
    assert_eq!(
        ours.sender,
        Address {
            services: ServiceFlags { bits: 9 },
            address: [0, 0, 0, 0, 0, 0xFFFF, 0x0102, 0x0304],
            port: 80
        }
    );
    assert_eq!(ours.nonce, 0xFFEE_DDCC_BBAA_9988);
    assert_eq!(ours.user_agent, "/Größe:1/");
    assert_eq!(ours.start_height, -7);
    assert!(ours.relay);
    for length in 0..bytes.len() {
        assert_eq!(
            decode_version(&bytes[..length]),
            Err(DecodeError::UnexpectedEof)
        );
    }
    let mut longer = bytes.clone();
    longer.push(1);
    assert_eq!(decode_version(&longer).unwrap(), ours);
    assert_eq!(
        read_one(&frame(OutsideMessage::Version(outside))),
        NetworkMessage::Version(ours)
    );
}

#[test]
fn relay_is_anything_but_zero() {
    let mut bytes = serialize(&version());
    let last = bytes.len() - 1;
    bytes[last] = 0x80;
    assert!(decode_version(&bytes).unwrap().relay);
    bytes[last] = 0;
    assert!(!decode_version(&bytes).unwrap().relay);
}

#[test]
fn a_user_agent_must_be_text() {
    let mut bytes = serialize(&version());
    bytes[81] = 0xFF;
    assert_eq!(decode_version(&bytes), Err(DecodeError::InvalidUtf8));
    bytes[80] = 0xFD;
    bytes[81] = 2;
    bytes[82] = 0;
    assert_eq!(decode_version(&bytes), Err(DecodeError::NonMinimalVarInt));
}

#[test]
fn inventories_come_back() {
    let hash = [0x5A; 32];
    let outside = vec![
        OutsideInventory::Transaction(bitcoin::Txid::from_byte_array(hash)),
        OutsideInventory::Block(bitcoin::BlockHash::from_byte_array(hash)),
        OutsideInventory::CompactBlock(bitcoin::BlockHash::from_byte_array(hash)),
        OutsideInventory::WTx(bitcoin::Wtxid::from_byte_array(hash)),
        OutsideInventory::WitnessTransaction(bitcoin::Txid::from_byte_array(hash)),
        OutsideInventory::WitnessBlock(bitcoin::BlockHash::from_byte_array(hash)),
        OutsideInventory::Unknown {
            inv_type: 77,
            hash,
        },
    ];
    let ours = vec![
        Inventory::Transaction(hash),
        Inventory::Block(hash),
        Inventory::CompactBlock(hash),
        Inventory::WTx(hash),
        Inventory::WitnessTransaction(hash),
        Inventory::WitnessBlock(hash),
        Inventory::Unknown { inv_type: 77, hash },
    ];
    let bytes = serialize(&outside);
    assert_eq!(decode_inventories(&bytes), Ok(ours.clone()));
    assert_eq!(
        decode_inventories(&bytes[..bytes.len() - 1]),
        Err(DecodeError::UnexpectedEof)
    );
    assert_eq!(decode_inventories(&[0, 3]), Ok(Vec::new()));
    assert_eq!(decode_inventories(&[]), Err(DecodeError::UnexpectedEof));
    assert_eq!(
        decode_inventories(&[0xFD, 1, 0]),
        Err(DecodeError::NonMinimalVarInt)
    );
    assert_eq!(
        read_one(&frame(OutsideMessage::GetData(outside))),
        NetworkMessage::GetData(ours)
    );
}

#[test]
fn the_other_messages_come_back() {
    assert_eq!(
        read_one(&frame(OutsideMessage::Verack)),
        NetworkMessage::Verack
    );
    assert_eq!(
        read_one(&frame(OutsideMessage::WtxidRelay)),
        NetworkMessage::WtxidRelay
    );
    assert_eq!(
        read_one(&frame(OutsideMessage::SendAddrV2)),
        NetworkMessage::SendAddrV2
    );
    assert_eq!(
        read_one(&frame(OutsideMessage::Ping(77))),
        NetworkMessage::Ping(77)
    );
    assert_eq!(
        read_one(&frame(OutsideMessage::Alert(vec![4, 5, 6]))),
        NetworkMessage::Alert(vec![4, 5, 6])
    );
    assert_eq!(
        read_one(&frame(OutsideMessage::Pong(77))),
        NetworkMessage::Unknown {
            command: "pong".to_string(),
            payload: vec![77, 0, 0, 0, 0, 0, 0, 0]
        }
    );
    assert_eq!(
        read_one(&frame(OutsideMessage::Inv(Vec::new()))),
        NetworkMessage::Unknown {
            command: "inv".to_string(),
            payload: vec![0]
        }
    );
    assert_eq!(
        read_one(&frame(OutsideMessage::FeeFilter(1000))),
        NetworkMessage::Unknown {
            command: "feefilter".to_string(),
            payload: vec![0xE8, 3, 0, 0, 0, 0, 0, 0]
        }
    );
}

#[test]
fn payloads_that_are_too_short() {
    assert_eq!(decode_nonce(&[1; 7]), Err(DecodeError::UnexpectedEof));
    assert_eq!(decode_nonce(&[1, 0, 0, 0, 0, 0, 0, 0, 9]), Ok(1));
    let ping = raw_frame(b"ping\0\0\0\0\0\0\0\0", &[1, 2, 3]);
    assert!(matches!(
        decode_first(&ping),
        Err((DecodeError::UnexpectedEof, 27))
    ));
    let verack = raw_frame(b"verack\0\0\0\0\0\0", &[1, 2, 3]);
    assert_eq!(read_one(&verack), NetworkMessage::Verack);
    assert_eq!(
        decode_message("alert".to_string(), vec![4, 1]),
        Err(DecodeError::UnexpectedEof)
    );
}

#[test]
fn commands() {
    assert_eq!(decode_command(b"ping\0\0\0\0\0\0\0\0"), Ok("ping".to_string()));
    assert_eq!(decode_command(b"p\0i\0n\0g\0\0\0\0\0"), Ok("ping".to_string()));
    assert_eq!(decode_command(&[0; 12]), Ok(String::new()));
    assert_eq!(
        decode_command(b"abcdefghijkl"),
        Ok("abcdefghijkl".to_string())
    );
    assert_eq!(
        decode_command(&[0xE9, 0xE9, 0xE9, 0xE9, 0xE9, 0xE9, 0, 0, 0, 0, 0, 0]),
        Ok("éééééé".to_string())
    );
    assert_eq!(
        decode_command(&[0xE9; 12]),
        Err(DecodeError::InvalidCommand)
    );
    assert_eq!(
        decode_command(&[0xE9, 1, 1, 1, 1, 1, 1, 1, 1, 1, 1, 1]),
        Err(DecodeError::InvalidCommand)
    );
}

#[test]
fn a_bad_command_is_refused_as_soon_as_it_is_there() {
    let mut bytes = vec![1, 2, 3, 4];
    bytes.extend_from_slice(&[0xE9; 12]);
    assert_eq!(decode_first(&bytes[..15]), Ok(None));
    assert_eq!(decode_first(&bytes), Err((DecodeError::InvalidCommand, 16)));
    let mut reader = MessageReader::new();
    reader.push(&bytes);
    reader.push(&frame(OutsideMessage::Ping(5)));
    assert_eq!(reader.next(), Err(DecodeError::InvalidCommand));
    let message = reader.next().unwrap().unwrap();
    assert_eq!(message.payload, NetworkMessage::Ping(5));
}

#[test]
fn a_bad_checksum_is_refused() {
    let mut bytes = frame(OutsideMessage::Ping(1));
    let good = [bytes[20], bytes[21], bytes[22], bytes[23]];
    bytes[23] ^= 1;
    let bad = [bytes[20], bytes[21], bytes[22], bytes[23]];
    assert_eq!(
        decode_first(&bytes),
        Err((
            DecodeError::InvalidChecksum {
                expected: good,
                actual: bad
            },
            32
        ))
    );
    bytes[23] ^= 1;
    bytes[30] ^= 1;
    assert!(matches!(
        decode_first(&bytes),
        Err((DecodeError::InvalidChecksum { .. }, 32))
    ));
}

#[test]
fn the_empty_payload_has_its_checksum() {
    let mut bytes = vec![0; 4];
    bytes.extend_from_slice(b"verack\0\0\0\0\0\0");
    bytes.extend_from_slice(&[0, 0, 0, 0, 0x5D, 0xF6, 0xE0, 0xE2]);
    let (message, length) = decode_first(&bytes).unwrap().unwrap();
    assert_eq!(message.magic, [0; 4]);
    assert_eq!(message.payload, NetworkMessage::Verack);
    assert_eq!(length, 24);
}

#[test]
fn it_does_not_matter_how_the_stream_is_cut() {
    let mut bytes = frame(OutsideMessage::Ping(5));
    bytes.extend(frame(OutsideMessage::Verack));
    bytes.extend(frame(OutsideMessage::Version(version())));
    let whole = decode_version(&serialize(&version())).unwrap();
    for size in 1..bytes.len() {
        let mut reader = MessageReader::new();
        let mut messages = Vec::new();
        for piece in bytes.chunks(size) {
            reader.push(piece);
            while let Some(message) = reader.next().unwrap() {
                assert_eq!(message.magic, Magic::REGTEST.to_bytes());
                messages.push(message.payload);
            }
        }
        assert_eq!(
            messages,
            vec![
                NetworkMessage::Ping(5),
                NetworkMessage::Verack,
                NetworkMessage::Version(whole.clone()),
            ]
        );
    }
}

#[test]
fn a_message_that_cannot_be_decoded_is_taken_out() {
    let mut reader = MessageReader::new();
    reader.push(&raw_frame(b"ping\0\0\0\0\0\0\0\0", &[1]));
    let mut bad = frame(OutsideMessage::Ping(5));
    bad[20] ^= 1;
    reader.push(&bad);
    reader.push(&frame(OutsideMessage::Verack));
    assert_eq!(reader.next(), Err(DecodeError::UnexpectedEof));
    assert!(matches!(
        reader.next(),
        Err(DecodeError::InvalidChecksum { .. })
    ));
    let message = reader.next().unwrap().unwrap();
    assert_eq!(message.payload, NetworkMessage::Verack);
    assert_eq!(reader.next(), Ok(None));
}

#[test]
fn a_message_may_not_be_too_long() {
    assert_eq!(MAX_MSG_SIZE, 5_000_000);
    let longest = raw_frame(b"block\0\0\0\0\0\0\0", &vec![7; 4_999_976]);
    assert_eq!(longest.len(), MAX_MSG_SIZE);
    assert_eq!(decode_first(&longest[..24]), Ok(None));
    assert_eq!(decode_first(&longest[..MAX_MSG_SIZE - 1]), Ok(None));
    match read_one(&longest) {
        NetworkMessage::Unknown { command, payload } => {
            assert_eq!(command, "block");
            assert_eq!(payload.len(), 4_999_976);
        }
        _ => panic!("the message was decoded"),
    }
    let too_long = raw_frame(b"block\0\0\0\0\0\0\0", &vec![7; 4_999_977]);
    assert_eq!(decode_first(&too_long[..23]), Ok(None));
    for length in [24, 25, too_long.len()] {
        assert_eq!(
            decode_first(&too_long[..length]),
            Err((DecodeError::UnexpectedEof, 24))
        );
    }
    let mut huge = too_long[..24].to_vec();
    huge[16..20].copy_from_slice(&[0xFF; 4]);
    assert_eq!(decode_first(&huge), Err((DecodeError::UnexpectedEof, 24)));
}
