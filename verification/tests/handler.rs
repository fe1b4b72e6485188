use bitcoin::consensus::encode::{deserialize, serialize};
use bitcoin::hashes::Hash as BitcoinHash;
use bitcoin::p2p::message::{NetworkMessage as OutsideMessage, RawNetworkMessage};
use bitcoin::p2p::message_blockdata::Inventory as OutsideInventory;
use bitcoin::p2p::Magic;
use bitcoin_send_tx_p2p::message::{
    Address, Inventory, NetworkMessage, ServiceFlags, VersionMessage,
};
use bitcoin_send_tx_p2p::message_handler::{BroadcastState, MessageHandler};
use bitcoin_send_tx_p2p::transaction::{OutPoint, Transaction, TxIn, TxOut};
use bitcoin_send_tx_p2p::Error;

const MAINNET: [u8; 4] = [0xF9, 0xBE, 0xB4, 0xD9];

const LEGACY: &str = "000000800100000000000000000000000000000000000000000000000000000000000000000000000000ffffffff0100f2052a01000000434104678afdb0fe5548271967f1a67130b7105cd6a828e03909a67962e0ea1f61deb649f6bc3f4cef38c4f35504e51ec112de5c384df7ba0b8d578a4c702b6bf11d5fac00000000";

const SEGWIT: &str = "01000000000101111111111111111111111111111111111111111111111111111111111111111107000000025152fdffffff02e80300000000000001510200000000000000020000020301020302aabb2a000000";

fn hex(text: &str) -> Vec<u8> {
    (0..text.len() / 2)
        .map(|i| u8::from_str_radix(&text[2 * i..2 * i + 2], 16).unwrap())
        .collect()
}

fn outside_tx(text: &str) -> bitcoin::Transaction {
    deserialize(&hex(text)).unwrap()
}

fn tx(text: &str) -> Transaction {
    let tx = outside_tx(text);
    Transaction {
        version: tx.version.0,
        lock_time: tx.lock_time.to_consensus_u32(),
        input: tx
            .input
            .iter()
            .map(|i| TxIn {
                previous_output: OutPoint {
                    txid: i.previous_output.txid.to_byte_array(),
                    vout: i.previous_output.vout,
                },
                script_sig: i.script_sig.to_bytes(),
                sequence: i.sequence.0,
                witness: i.witness.to_vec(),
            })
            .collect(),
        output: tx
            .output
            .iter()
            .map(|o| TxOut {
                value: o.value.to_sat(),
                script_pubkey: o.script_pubkey.to_bytes(),
            })
            .collect(),
    }
}

fn frame(message: OutsideMessage) -> Vec<u8> {
    serialize(&RawNetworkMessage::new(Magic::BITCOIN, message))
}

fn address() -> Address {
    Address {
        services: ServiceFlags { bits: 9 },
        address: [0, 0, 0, 0, 0, 0xFFFF, 0x7F00, 1],
        port: 8333,
    }
}

fn peer_version(version: u32, services: u64, relay: bool) -> VersionMessage {
    VersionMessage {
        version,
        services: ServiceFlags { bits: services },
        timestamp: 1_700_000_000,
        receiver: address(),
        sender: address(),
        nonce: 7,
        user_agent: "/Satoshi:25.0.0/".to_string(),
        start_height: 820_000,
        relay,
    }
}

fn our_version() -> VersionMessage {
    peer_version(70001, 8, false)
}

/// A handler that has sent our version message.
fn greeted(text: &str) -> MessageHandler {
    let mut handler = MessageHandler::new(MAINNET, tx(text));
    let reply = handler.send_version_msg(our_version());
    handler.written(reply.then_on);
    handler
}

/// Hands a message to the handler and gives what it has written in reply.
fn take(handler: &mut MessageHandler, message: NetworkMessage) -> Vec<Vec<u8>> {
    let reply = handler.handle_message(message).unwrap();
    handler.written(reply.then_on);
    reply.writes
}

fn refusal(handler: &MessageHandler, message: NetworkMessage) -> String {
    match handler.handle_message(message) {
        Err(Error::Protocol(text)) => text,
        _ => panic!("the message was not refused"),
    }
}

/// A handler in each state, in their order.
fn handler_in(state: BroadcastState) -> MessageHandler {
    let mut handler = MessageHandler::new(MAINNET, tx(LEGACY));
    let txid = outside_tx(LEGACY).compute_txid().to_byte_array();
    if state != BroadcastState::Connected {
        handler = greeted(LEGACY);
        let messages = vec![
            NetworkMessage::Version(peer_version(70016, 9, true)),
            NetworkMessage::Verack,
            NetworkMessage::GetData(vec![Inventory::Transaction(txid)]),
        ];
        for message in messages {
            if handler.state() != state {
                take(&mut handler, message);
            }
        }
    }
    assert_eq!(handler.state(), state);
    handler
}

const STATES: [BroadcastState; 5] = [
    BroadcastState::Connected,
    BroadcastState::AwaitingVersion,
    BroadcastState::AwaitingVerack,
    BroadcastState::AwaitingGetData,
    BroadcastState::Done,
];

#[test]
fn sends_our_version_message_first() {
    let mut handler = MessageHandler::new(MAINNET, tx(LEGACY));
    assert_eq!(handler.state(), BroadcastState::Connected);
    let reply = handler.send_version_msg(our_version());
    assert_eq!(handler.state(), BroadcastState::Connected);
    let expected = hex(concat_hex().as_str());
    assert_eq!(reply.writes, vec![expected]);
    handler.written(reply.then_on);
    assert_eq!(handler.state(), BroadcastState::AwaitingVersion);
}

/// The frame of `our_version`, field by field.
fn concat_hex() -> String {
    let payload = [
        "71110100",
        "0800000000000000",
        "00f1536500000000",
        "0900000000000000",
        "00000000000000000000ffff7f000001",
        "208d",
        "0900000000000000",
        "00000000000000000000ffff7f000001",
        "208d",
        "0700000000000000",
        "10",
        "2f5361746f7368693a32352e302e302f",
        "20830c00",
        "00",
    ]
    .concat();
    let hash = bitcoin::hashes::sha256d::Hash::hash(&hex(&payload)).to_byte_array();
    let checksum: String = hash[..4].iter().map(|b| format!("{:02x}", b)).collect();
    [
        "f9beb4d9",
        "76657273696f6e0000000000",
        "66000000",
        checksum.as_str(),
        payload.as_str(),
    ]
    .concat()
}

#[test]
fn announces_by_txid_and_sends_when_asked() {
    let mut handler = greeted(SEGWIT);
    let verack = hex("f9beb4d976657261636b000000000000000000005df6e0e2");
    let writes = take(
        &mut handler,
        NetworkMessage::Version(peer_version(70016, 9, true)),
    );
    assert_eq!(writes, vec![verack]);
    assert_eq!(handler.state(), BroadcastState::AwaitingVerack);
    assert!(take(&mut handler, NetworkMessage::SendAddrV2).is_empty());
    let txid = outside_tx(SEGWIT).compute_txid();
    let writes = take(&mut handler, NetworkMessage::Verack);
    assert_eq!(
        writes,
        vec![frame(OutsideMessage::Inv(vec![
            OutsideInventory::Transaction(txid)
        ]))]
    );
    assert_eq!(handler.state(), BroadcastState::AwaitingGetData);
    let items = vec![
        Inventory::Block([3; 32]),
        Inventory::WitnessTransaction(txid.to_byte_array()),
    ];
    let writes = take(&mut handler, NetworkMessage::GetData(items));
    assert_eq!(
        writes,
        vec![frame(OutsideMessage::Tx(outside_tx(SEGWIT)))]
    );
    assert_eq!(&writes[0][24..], hex(SEGWIT).as_slice());
    assert_eq!(handler.state(), BroadcastState::Done);
}

#[test]
fn announces_by_wtxid_after_wtxidrelay() {
    let mut handler = greeted(SEGWIT);
    let writes = take(
        &mut handler,
        NetworkMessage::Version(peer_version(70001, 8, true)),
    );
    assert_eq!(
        writes,
        vec![
            frame(OutsideMessage::WtxidRelay),
            frame(OutsideMessage::SendAddrV2),
            frame(OutsideMessage::Verack),
        ]
    );
    assert!(take(&mut handler, NetworkMessage::WtxidRelay).is_empty());
    assert_eq!(handler.state(), BroadcastState::AwaitingVerack);
    let wtxid = outside_tx(SEGWIT).compute_wtxid();
    let txid = outside_tx(SEGWIT).compute_txid().to_byte_array();
    assert_ne!(wtxid.to_byte_array(), txid);
    let writes = take(&mut handler, NetworkMessage::Verack);
    assert_eq!(
        writes,
        vec![frame(OutsideMessage::Inv(vec![OutsideInventory::WTx(wtxid)]))]
    );
    let wrong = vec![
        Inventory::Transaction(txid),
        Inventory::WitnessTransaction(txid),
        Inventory::WTx(txid),
    ];
    assert_eq!(
        refusal(&handler, NetworkMessage::GetData(wrong)),
        "Getdata message does not contain our wtxid"
    );
    assert_eq!(handler.state(), BroadcastState::AwaitingGetData);
    let items = vec![Inventory::WTx(wtxid.to_byte_array())];
    let writes = take(&mut handler, NetworkMessage::GetData(items));
    assert_eq!(&writes[0][24..], hex(SEGWIT).as_slice());
    assert_eq!(handler.state(), BroadcastState::Done);
}

#[test]
fn legacy_transaction_goes_out_as_it_was() {
    let mut handler = handler_in(BroadcastState::AwaitingGetData);
    let txid = outside_tx(LEGACY).compute_txid().to_byte_array();
    let writes = take(
        &mut handler,
        NetworkMessage::GetData(vec![Inventory::Transaction(txid)]),
    );
    assert_eq!(writes.len(), 1);
    assert_eq!(&writes[0][..16], hex("f9beb4d9747800000000000000000000").as_slice());
    assert_eq!(&writes[0][24..], hex(LEGACY).as_slice());
}

#[test]
fn transaction_without_inputs_is_written_with_marker() {
    let mut empty = tx(LEGACY);
    empty.input = Vec::new();
    let mut handler = MessageHandler::new(MAINNET, empty);
    let reply = handler.send_version_msg(our_version());
    handler.written(reply.then_on);
    take(
        &mut handler,
        NetworkMessage::Version(peer_version(70016, 8, true)),
    );
    let inv = take(&mut handler, NetworkMessage::Verack);
    let mut txid = [0; 32];
    txid.copy_from_slice(&inv[0][29..61]);
    let writes = take(
        &mut handler,
        NetworkMessage::GetData(vec![Inventory::Transaction(txid)]),
    );
    assert_eq!(&writes[0][24..32], hex("0000008000010001").as_slice());
}

#[test]
fn refuses_a_node_that_cannot_be_sent_the_transaction() {
    let handler = greeted(LEGACY);
    let no_relay = NetworkMessage::Version(peer_version(70016, 9, false));
    assert_eq!(refusal(&handler, no_relay), "Node does not relay transactions");
    let no_segwit = NetworkMessage::Version(peer_version(70016, 1 + 4 + 16, true));
    assert_eq!(refusal(&handler, no_segwit), "Node does not support segwit");
    let neither = NetworkMessage::Version(peer_version(70016, 0, false));
    assert_eq!(refusal(&handler, neither), "Node does not relay transactions");
    assert_eq!(handler.state(), BroadcastState::AwaitingVersion);
}

#[test]
fn refuses_a_getdata_for_something_else() {
    let handler = handler_in(BroadcastState::AwaitingGetData);
    let txid = outside_tx(LEGACY).compute_txid().to_byte_array();
    let mut other = txid;
    other[31] ^= 1;
    let text = "Getdata message does not contain our txid";
    let cases = vec![
        Vec::new(),
        vec![Inventory::Transaction(other)],
        vec![Inventory::WTx(txid), Inventory::Block(txid)],
        vec![Inventory::Unknown {
            inv_type: 1,
            hash: txid,
        }],
    ];
    for items in cases {
        assert_eq!(refusal(&handler, NetworkMessage::GetData(items)), text);
    }
}

#[test]
fn messages_out_of_order_are_refused() {
    let version = NetworkMessage::Version(peer_version(70016, 9, true));
    let getdata = NetworkMessage::GetData(Vec::new());
    let cases = vec![
        (version, "version", vec![1]),
        (NetworkMessage::Verack, "verack", vec![2]),
        (NetworkMessage::WtxidRelay, "wtxidrelay", vec![2]),
        (NetworkMessage::SendAddrV2, "sendaddrv2", vec![2]),
        (getdata, "getdata", vec![3]),
        (NetworkMessage::Ping(1), "ping", vec![3, 4]),
    ];
    for (message, name, allowed) in cases {
        for (i, state) in STATES.iter().enumerate() {
            if !allowed.contains(&i) {
                let handler = handler_in(*state);
                assert_eq!(
                    refusal(&handler, message.clone()),
                    format!("Received {} msg out of order", name)
                );
                assert_eq!(handler.state(), *state);
            }
        }
    }
}

#[test]
fn unknown_messages_are_refused_until_the_verack() {
    let message = NetworkMessage::Unknown {
        command: "feefilter".to_string(),
        payload: vec![1, 2, 3],
    };
    let names = ["Connected", "AwaitingVersion", "AwaitingVerack"];
    for (name, state) in names.iter().zip(STATES) {
        assert_eq!(
            refusal(&handler_in(state), message.clone()),
            format!("Received feefilter msg out of order {}", name)
        );
    }
    for state in &STATES[3..] {
        let mut handler = handler_in(*state);
        assert!(take(&mut handler, message.clone()).is_empty());
        assert_eq!(handler.state(), *state);
    }
}

#[test]
fn other_messages_are_passed_over_at_any_time() {
    for state in STATES {
        let mut handler = handler_in(state);
        let messages = vec![
            NetworkMessage::Alert(vec![1]),
            NetworkMessage::Pong(3),
            NetworkMessage::Inv(vec![Inventory::Block([1; 32])]),
            NetworkMessage::Tx(tx(SEGWIT)),
        ];
        for message in messages {
            assert!(take(&mut handler, message).is_empty());
            assert_eq!(handler.state(), state);
        }
    }
}

#[test]
fn pings_are_answered_with_their_nonce() {
    for state in [BroadcastState::AwaitingGetData, BroadcastState::Done] {
        let mut handler = handler_in(state);
        let writes = take(&mut handler, NetworkMessage::Ping(0x0102_0304_0506_0708));
        assert_eq!(
            writes,
            vec![frame(OutsideMessage::Pong(0x0102_0304_0506_0708))]
        );
        assert_eq!(&writes[0][24..], &[8, 7, 6, 5, 4, 3, 2, 1]);
        assert_eq!(handler.state(), state);
    }
}

#[test]
fn the_state_changes_only_once_the_reply_is_written() {
    let mut handler = greeted(LEGACY);
    let version = NetworkMessage::Version(peer_version(70016, 9, true));
    let reply = handler.handle_message(version.clone()).unwrap();
    assert_eq!(handler.state(), BroadcastState::AwaitingVersion);
    assert!(handler.handle_message(version).is_ok());
    handler.written(reply.then_on);
    assert_eq!(handler.state(), BroadcastState::AwaitingVerack);
}

#[test]
fn the_transaction_is_sent_once() {
    let handler = handler_in(BroadcastState::Done);
    let txid = outside_tx(LEGACY).compute_txid().to_byte_array();
    assert_eq!(
        refusal(
            &handler,
            NetworkMessage::GetData(vec![Inventory::Transaction(txid)])
        ),
        "Received getdata msg out of order"
    );
}

#[test]
fn order_repeats_and_further_items_do_not_matter() {
    let handler = handler_in(BroadcastState::AwaitingGetData);
    let txid = outside_tx(LEGACY).compute_txid().to_byte_array();
    let ours = Inventory::Transaction(txid);
    let other = Inventory::Block([7; 32]);
    let lists = vec![
        vec![ours],
        vec![ours, other],
        vec![other, ours],
        vec![other, ours, ours, other],
        vec![other, ours, Inventory::WTx(txid)],
    ];
    for items in lists {
        let reply = handler
            .handle_message(NetworkMessage::GetData(items))
            .unwrap();
        assert_eq!(
            reply.writes,
            vec![frame(OutsideMessage::Tx(outside_tx(LEGACY)))]
        );
    }
}

#[test]
fn a_second_wtxidrelay_changes_nothing() {
    let mut inv = Vec::new();
    for count in [1, 2, 3] {
        let mut handler = greeted(SEGWIT);
        take(
            &mut handler,
            NetworkMessage::Version(peer_version(70016, 9, true)),
        );
        for _ in 0..count {
            assert!(take(&mut handler, NetworkMessage::WtxidRelay).is_empty());
            assert_eq!(handler.state(), BroadcastState::AwaitingVerack);
        }
        inv.push(take(&mut handler, NetworkMessage::Verack));
    }
    let wtxid = outside_tx(SEGWIT).compute_wtxid();
    let expected = frame(OutsideMessage::Inv(vec![OutsideInventory::WTx(wtxid)]));
    assert_eq!(inv, vec![vec![expected]; 3]);
}

#[test]
fn refused_messages_leave_the_exchange_where_it_is() {
    let mut handler = greeted(LEGACY);
    let txid = outside_tx(LEGACY).compute_txid().to_byte_array();
    let getdata = NetworkMessage::GetData(vec![Inventory::Transaction(txid)]);
    let version = NetworkMessage::Version(peer_version(70016, 9, true));
    let script = [
        NetworkMessage::Verack,
        getdata.clone(),
        version.clone(),
        NetworkMessage::Ping(1),
        version.clone(),
        NetworkMessage::Verack,
        NetworkMessage::Verack,
        NetworkMessage::GetData(Vec::new()),
        getdata.clone(),
        getdata,
        version,
    ];
    let mut states = Vec::new();
    let mut written = Vec::new();
    for message in script {
        if let Ok(reply) = handler.handle_message(message) {
            handler.written(reply.then_on);
            written.extend(reply.writes);
        }
        states.push(handler.state());
    }
    let expected = [1, 1, 2, 2, 2, 3, 3, 3, 4, 4, 4];
    assert_eq!(states, expected.map(|i: usize| STATES[i]));
    let txid = outside_tx(LEGACY).compute_txid();
    assert_eq!(
        written,
        vec![
            frame(OutsideMessage::Verack),
            frame(OutsideMessage::Inv(vec![OutsideInventory::Transaction(
                txid
            )])),
            frame(OutsideMessage::Tx(outside_tx(LEGACY))),
        ]
    );
}
