use bitcoin_send_tx_p2p::config::{SocketAddr, Timeout};
use bitcoin_send_tx_p2p::message::{Address, ServiceFlags, VersionMessage, PROTOCOL_VERSION};
use bitcoin_send_tx_p2p::message::NetworkMessage;
use bitcoin_send_tx_p2p::message_loop::MessageLoop;
use bitcoin_send_tx_p2p::reader::decode_first;
use bitcoin_send_tx_p2p::transaction::Transaction;
use bitcoin_send_tx_p2p::version::{build_version_message, timestamp_of, version_message, version_message_at};
use bitcoin_send_tx_p2p::{Config, Error};

#[test]
fn default_config() {
    let config = Config::default();
    assert_eq!(config.user_agent, "/Satoshi:23.0.0/");
    assert_eq!(config.block_height, 749_000);
    assert_eq!(config.magic, bitcoin::p2p::Magic::BITCOIN.to_bytes());
    assert_eq!(config.connection_timeout, Timeout { secs: 30, nanos: 0 });
    assert_eq!(config.send_tx_timeout, Timeout { secs: 30, nanos: 0 });
    assert_eq!(
        config.tor_proxy,
        SocketAddr::V4 {
            ip: [127, 0, 0, 1],
            port: 9050
        }
    );
}

#[test]
fn addresses_are_mapped_to_ipv6() {
    let services = ServiceFlags { bits: 5 };
    let v4 = SocketAddr::V4 {
        ip: [10, 0, 200, 1],
        port: 18333,
    };
    assert_eq!(
        Address::new(&v4, services),
        Address {
            services,
            address: [0, 0, 0, 0, 0, 0xFFFF, 0x0A00, 0xC801],
            port: 18333
        }
    );
    let v6 = SocketAddr::V6 {
        ip: [0x2001, 0xDB8, 0, 0, 0, 0, 0, 0x17],
        port: 8333,
        flowinfo: 1,
        scope_id: 2,
    };
    assert_eq!(
        Address::new(&v6, services),
        Address {
            services,
            address: [0x2001, 0xDB8, 0, 0, 0, 0, 0, 0x17],
            port: 8333
        }
    );
}

#[test]
fn addresses_agree_with_the_bitcoin_crate() {
    let outside = bitcoin::p2p::Address::new(
        &"1.2.3.4:5678".parse().unwrap(),
        bitcoin::p2p::ServiceFlags::WITNESS,
    );
    let ours = Address::new(
        &SocketAddr::V4 {
            ip: [1, 2, 3, 4],
            port: 5678,
        },
        ServiceFlags::witness(),
    );
    assert_eq!(ours.address, outside.address);
    assert_eq!(ours.port, outside.port);
    assert_eq!(ours.services.bits, outside.services.to_u64());
    assert_eq!(PROTOCOL_VERSION, bitcoin::p2p::PROTOCOL_VERSION);
}

#[test]
fn service_flags() {
    let witness = ServiceFlags::witness();
    assert_eq!(witness.bits, 8);
    assert!(ServiceFlags { bits: 9 }.has(witness));
    assert!(!ServiceFlags { bits: 0xFFF7 }.has(witness));
    assert!(ServiceFlags { bits: 0 }.has(ServiceFlags { bits: 0 }));
    assert!(!ServiceFlags { bits: 1 }.has(ServiceFlags { bits: 3 }));
}

#[test]
fn version_message_to_a_known_address() {
    let mut config = Config::default();
    config.block_height = 1000;
    config.user_agent = "/me/".to_string();
    let socket = SocketAddr::V4 {
        ip: [127, 0, 0, 1],
        port: 8333,
    };
    let empty = Address {
        services: ServiceFlags::witness(),
        address: [0, 0, 0, 0, 0, 0xFFFF, 0, 0],
        port: 0,
    };
    let message = version_message(&config, Some(socket), 42, 1_700_000_000);
    assert_eq!(
        message,
        VersionMessage {
            version: 70001,
            services: ServiceFlags { bits: 8 },
            timestamp: 1_700_000_000,
            receiver: Address::new(&socket, ServiceFlags { bits: 8 }),
            sender: empty,
            nonce: 42,
            user_agent: "/me/".to_string(),
            start_height: 1000,
            relay: false,
        }
    );
    assert_eq!(version_message(&config, None, 42, 0).receiver, empty);
}

#[test]
fn the_clock_and_chance_fill_in_the_rest() {
    let config = Config::default();
    let first = build_version_message(&config, None).unwrap();
    let second = build_version_message(&config, None).unwrap();
    assert_ne!(first.nonce, second.nonce);
    assert!(first.timestamp > 1_600_000_000);
    assert!(first.timestamp <= second.timestamp);
    assert_eq!(first.user_agent, config.user_agent);
    assert_eq!(first.start_height, config.block_height);
    assert!(!first.relay);
}

#[test]
fn seconds_that_a_version_message_cannot_hold() {
    assert_eq!(timestamp_of(0).unwrap(), 0);
    assert_eq!(timestamp_of(i64::MAX as u64).unwrap(), i64::MAX);
    assert!(matches!(
        timestamp_of(i64::MAX as u64 + 1),
        Err(Error::TimestampOverflow)
    ));
}

#[test]
fn our_version_message_comes_back() {
    let mut config = Config::default();
    config.magic = bitcoin::p2p::Magic::REGTEST.to_bytes();
    config.block_height = -1;
    let socket = SocketAddr::V6 {
        ip: [1, 2, 3, 4, 5, 6, 7, 8],
        port: 18444,
        flowinfo: 0,
        scope_id: 0,
    };
    let tx = Transaction {
        version: 1,
        lock_time: 0,
        input: Vec::new(),
        output: Vec::new(),
    };
    let message = version_message(&config, Some(socket), u64::MAX, i64::MAX);
    let (_, writes) = MessageLoop::open(config.magic, tx, message.clone());
    assert_eq!(writes.len(), 1);
    let (read, length) = decode_first(&writes[0]).unwrap().unwrap();
    assert_eq!(length, 24 + 85 + 17);
    assert_eq!(read.magic, [0xFA, 0xBF, 0xB5, 0xDA]);
    assert_eq!(read.payload, NetworkMessage::Version(message));
}

#[test]
fn only_the_clock_can_make_it_fail() {
    let config = Config::default();
    let socket = SocketAddr::V4 {
        ip: [1, 2, 3, 4],
        port: 5,
    };
    for address in [None, Some(socket)] {
        assert_eq!(
            version_message_at(&config, address, 7, Ok(8)).unwrap(),
            version_message(&config, address, 7, 8)
        );
        let last = i64::MAX as u64;
        assert!(version_message_at(&config, address, 7, Ok(last)).is_ok());
        assert!(matches!(
            version_message_at(&config, address, 7, Ok(last + 1)),
            Err(Error::TimestampOverflow)
        ));
        let earlier = std::time::UNIX_EPOCH;
        let later = earlier + std::time::Duration::from_secs(9);
        let error = earlier.duration_since(later).unwrap_err();
        match version_message_at(&config, address, 7, Err(error)) {
            Err(Error::SystemTime(e)) => assert_eq!(e.duration().as_secs(), 9),
            _ => panic!("the clock stands before 1970"),
        }
    }
}
