use bitcoin::consensus::encode::serialize;
use bitcoin::hashes::Hash as BitcoinHash;
use bitcoin::p2p::message::{NetworkMessage as OutsideMessage, RawNetworkMessage};
use bitcoin::p2p::message_blockdata::Inventory as OutsideInventory;
use bitcoin::p2p::Magic;
use bitcoin_send_tx_p2p::error::DecodeError;
use bitcoin_send_tx_p2p::message_loop::{Action, MessageLoop};
use bitcoin_send_tx_p2p::transaction::{OutPoint, Transaction, TxIn, TxOut};
use bitcoin_send_tx_p2p::version::version_message;
use bitcoin_send_tx_p2p::{Config, Error};

fn frame(message: OutsideMessage) -> Vec<u8> {
    serialize(&RawNetworkMessage::new(Magic::BITCOIN, message))
}

fn tx() -> Transaction {
    Transaction {
        version: 2,
        lock_time: 500,
        input: vec![TxIn {
            previous_output: OutPoint {
                txid: [9; 32],
                vout: 1,
            },
            script_sig: Vec::new(),
            sequence: 0xFFFF_FFFE,
            witness: vec![vec![1, 2, 3], Vec::new(), vec![4; 300]],
        }],
        output: vec![TxOut {
            value: 12_345,
            script_pubkey: vec![0x51],
        }],
    }
}

/// The bytes of `tx`, field by field.
fn tx_bytes(with_witness: bool) -> Vec<u8> {
    let mut bytes = vec![2, 0, 0, 0];
    if with_witness {
        bytes.extend([0, 1]);
    }
    bytes.push(1);
    bytes.extend([9; 32]);
    bytes.extend([1, 0, 0, 0]);
    bytes.push(0);
    bytes.extend([0xFE, 0xFF, 0xFF, 0xFF]);
    bytes.push(1);
    bytes.extend([0x39, 0x30, 0, 0, 0, 0, 0, 0]);
    bytes.extend([1, 0x51]);
    if with_witness {
        bytes.extend([3, 3, 1, 2, 3, 0, 0xFD, 0x2C, 1]);
        bytes.extend([4; 300]);
    }
    bytes.extend([0xF4, 1, 0, 0]);
    bytes
}

fn hash(bytes: &[u8]) -> [u8; 32] {
    bitcoin::hashes::sha256d::Hash::hash(bytes).to_byte_array()
}

fn peer_version(version: u32) -> OutsideMessage {
    let services = bitcoin::p2p::ServiceFlags::WITNESS;
    let address = bitcoin::p2p::Address::new(&"1.2.3.4:80".parse().unwrap(), services);
    let mut message = bitcoin::p2p::message_network::VersionMessage::new(
        services,
        0,
        address.clone(),
        address,
        1,
        "/peer/".to_string(),
        5,
    );
    message.version = version;
    message.relay = true;
    OutsideMessage::Version(message)
}

fn open() -> MessageLoop {
    let config = Config::default();
    let (exchange, writes) =
        MessageLoop::open(config.magic, tx(), version_message(&config, None, 3, 4));
    assert_eq!(writes.len(), 1);
    assert_eq!(&writes[0][..16], b"\xF9\xBE\xB4\xD9version\0\0\0\0\0");
    exchange
}

/// Feeds the bytes in pieces of this size, and gives everything that was
/// written until the exchange was finished or wanted more.
fn drive(exchange: &mut MessageLoop, bytes: &[u8], size: usize) -> (Vec<Vec<u8>>, Action) {
    let mut pieces = bytes.chunks(size);
    let mut written = Vec::new();
    loop {
        match exchange.poll().unwrap() {
            Action::Write(writes) => written.extend(writes),
            Action::Finished => return (written, Action::Finished),
            Action::Read => match pieces.next() {
                Some(piece) => exchange.receive(piece).unwrap(),
                None => return (written, Action::Read),
            },
        }
    }
}

#[test]
fn a_peer_that_keeps_to_the_protocol_gets_the_transaction() {
    let wtxid = hash(&tx_bytes(true));
    let mut bytes = Vec::new();
    for message in [
        peer_version(70001),
        OutsideMessage::WtxidRelay,
        OutsideMessage::SendAddrV2,
        OutsideMessage::Verack,
        OutsideMessage::FeeFilter(7),
        OutsideMessage::Ping(11),
        OutsideMessage::GetData(vec![OutsideInventory::WTx(
            bitcoin::Wtxid::from_byte_array(wtxid),
        )]),
        OutsideMessage::Ping(12),
    ] {
        bytes.extend(frame(message));
    }
    let mut tx_frame = Vec::new();
    tx_frame.extend(b"\xF9\xBE\xB4\xD9tx\0\0\0\0\0\0\0\0\0\0");
    tx_frame.extend((tx_bytes(true).len() as u32).to_le_bytes());
    tx_frame.extend(&wtxid[..4]);
    tx_frame.extend(tx_bytes(true));
    for size in [1, 7, 100, 10_000] {
        let mut exchange = open();
        let (written, end) = drive(&mut exchange, &bytes, size);
        assert_eq!(end, Action::Finished);
        assert_eq!(
            written,
            vec![
                frame(OutsideMessage::WtxidRelay),
                frame(OutsideMessage::SendAddrV2),
                frame(OutsideMessage::Verack),
                frame(OutsideMessage::Inv(vec![OutsideInventory::WTx(
                    bitcoin::Wtxid::from_byte_array(wtxid)
                )])),
                frame(OutsideMessage::Pong(11)),
                tx_frame.clone(),
            ]
        );
    }
}

#[test]
fn a_peer_without_wtxidrelay_gets_it_by_txid() {
    let txid = hash(&tx_bytes(false));
    let outside = bitcoin::Txid::from_byte_array(txid);
    let mut bytes = frame(peer_version(70015));
    bytes.extend(frame(OutsideMessage::Verack));
    let mut exchange = open();
    let (written, end) = drive(&mut exchange, &bytes, 50);
    assert_eq!(end, Action::Read);
    assert_eq!(
        written,
        vec![
            frame(OutsideMessage::Verack),
            frame(OutsideMessage::Inv(vec![OutsideInventory::Transaction(
                outside
            )])),
        ]
    );
    let items = vec![OutsideInventory::WitnessTransaction(outside)];
    let (written, end) = drive(&mut exchange, &frame(OutsideMessage::GetData(items)), 50);
    assert_eq!(end, Action::Finished);
    assert_eq!(written.len(), 1);
    assert_eq!(&written[0][24..], tx_bytes(true).as_slice());
}

#[test]
fn a_peer_that_breaks_the_protocol_is_left() {
    let mut exchange = open();
    exchange.receive(&frame(OutsideMessage::Verack)).unwrap();
    match exchange.poll() {
        Err(Error::Protocol(text)) => assert_eq!(text, "Received verack msg out of order"),
        _ => panic!("the message was not refused"),
    }
}

#[test]
fn bytes_that_are_no_message_end_the_exchange() {
    let mut exchange = open();
    let mut bytes = frame(peer_version(70015));
    bytes[23] ^= 1;
    exchange.receive(&bytes).unwrap();
    assert!(matches!(
        exchange.poll(),
        Err(Error::Bitcoin(DecodeError::InvalidChecksum { .. }))
    ));
    assert_eq!(exchange.poll().unwrap(), Action::Read);
}

#[test]
fn a_peer_that_closes_the_connection_ends_the_exchange() {
    let mut exchange = open();
    assert_eq!(exchange.poll().unwrap(), Action::Read);
    assert!(matches!(
        exchange.receive(&[]),
        Err(Error::Bitcoin(DecodeError::UnexpectedEof))
    ));
}

#[test]
fn early_bytes_wait_for_their_turn() {
    let mut bytes = frame(peer_version(70015));
    bytes.extend(frame(OutsideMessage::Verack));
    let mut exchange = open();
    exchange.receive(&bytes).unwrap();
    assert_eq!(
        exchange.poll().unwrap(),
        Action::Write(vec![frame(OutsideMessage::Verack)])
    );
    exchange.receive(&frame(OutsideMessage::Ping(1))).unwrap();
    assert!(matches!(exchange.poll().unwrap(), Action::Write(writes) if writes.len() == 1));
    assert_eq!(
        exchange.poll().unwrap(),
        Action::Write(vec![frame(OutsideMessage::Pong(1))])
    );
    assert_eq!(exchange.poll().unwrap(), Action::Read);
}

#[test]
fn messages_of_any_network_are_taken() {
    let mut exchange = open();
    let message = RawNetworkMessage::new(Magic::REGTEST, peer_version(70015));
    exchange.receive(&serialize(&message)).unwrap();
    assert_eq!(
        exchange.poll().unwrap(),
        Action::Write(vec![frame(OutsideMessage::Verack)])
    );
}

#[test]
fn the_networks_of_the_messages_do_not_matter() {
    let txid = bitcoin::Txid::from_byte_array(hash(&tx_bytes(false)));
    let messages = [
        peer_version(70001),
        OutsideMessage::Verack,
        OutsideMessage::Ping(2),
        OutsideMessage::GetData(vec![OutsideInventory::Transaction(txid)]),
    ];
    let magics = [
        Magic::BITCOIN,
        Magic::REGTEST,
        Magic::from_bytes([0; 4]),
        Magic::from_bytes([0xFF; 4]),
    ];
    let mut same = Vec::new();
    let mut mixed = Vec::new();
    for (magic, message) in magics.into_iter().zip(messages) {
        same.extend(frame(message.clone()));
        mixed.extend(serialize(&RawNetworkMessage::new(magic, message)));
    }
    assert_ne!(same, mixed);
    let (written, end) = drive(&mut open(), &same, 10);
    let (written_too, end_too) = drive(&mut open(), &mixed, 10);
    assert_eq!(written, written_too);
    assert_eq!(end, Action::Finished);
    assert_eq!(end_too, Action::Finished);
}
